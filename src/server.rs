//! Domains sharing a server, and what is known of a website's server.
use vstd::prelude::*;
use crate::report::ServerData;
use crate::urls::{extract_domain, domain_of};

verus! {

/// Finds the domains hosted on the same server as a target.
pub struct ReverseIpLookup;

impl ReverseIpLookup {
    /// The domain named by `url`.
    pub fn extract_domain(url: &str) -> (r: String)
        ensures
            r@ == domain_of(url@),
    {
        extract_domain(url)
    }

    /// The form fields of a lookup of the domain named by `url`.
    pub fn request_form(url: &str) -> (r: Vec<(String, String)>)
        ensures
            r@.len() == 2,
            r@[0].0@ == "remoteAddress"@ && r@[0].1@ == domain_of(url@),
            r@[1].0@ == "key"@ && r@[1].1@.len() == 0,
    {
        let mut form: Vec<(String, String)> = Vec::new();
        form.push((String::from_str("remoteAddress"), extract_domain(url)));
        form.push((String::from_str("key"), String::new()));
        form
    }

    /// The outcome of a lookup answered with `status`, `message` and, for
    /// each entry of the domain list, its first item when that is a string:
    /// the domains present when the status is `Success`; otherwise the
    /// failure, with the message or `Unknown error`.
    pub fn outcome(status: Option<String>, message: Option<String>, entries: Vec<Option<String>>) -> (r: Result<Vec<String>, String>)
        ensures
            (status matches Some(s) && s@ == "Success"@) ==> (r matches Ok(d) && d@.map_values(|x: String| x@)
                == entries@.filter(|e: Option<String>| e is Some).map_values(|e: Option<String>| e->0@)),
            !(status matches Some(s) && s@ == "Success"@) ==> (r matches Err(m) && m@ == "Reverse IP lookup failed: "@
                + match message {
                Some(t) => t@,
                None => "Unknown error"@,
            }),
    {
        let success = match &status {
            Some(s) => *s == String::from_str("Success"),
            None => false,
        };
        if success {
            let mut domains: Vec<String> = Vec::new();
            let mut i: usize = 0;
            while i < entries.len()
                invariant
                    i <= entries@.len(),
                    domains@.map_values(|x: String| x@) == entries@.subrange(0, i as int).filter(
                        |e: Option<String>| e is Some,
                    ).map_values(|e: Option<String>| e->0@),
                decreases entries@.len() - i,
            {
                let ghost prefix = entries@.subrange(0, i as int + 1);
                assert(prefix.drop_last() =~= entries@.subrange(0, i as int));
                proof {
                    reveal(Seq::filter);
                }
                let ghost before = domains@.map_values(|x: String| x@);
                match &entries[i] {
                    Some(d) => {
                        domains.push(d.clone());
                        assert(domains@.map_values(|x: String| x@) =~= before.push(d@));
                    },
                    None => {},
                }
                assert(domains@.map_values(|x: String| x@) =~= prefix.filter(|e: Option<String>| e is Some).map_values(
                    |e: Option<String>| e->0@,
                ));
                i += 1;
            }
            assert(entries@.subrange(0, i as int) =~= entries@);
            Ok(domains)
        } else {
            let text = match message {
                Some(t) => t,
                None => String::from_str("Unknown error"),
            };
            Err(String::from_str("Reverse IP lookup failed: ").concat(text.as_str()))
        }
    }
}

/// Looks up the server software and language of websites.
pub struct ServerInfoChecker;

/// The server and language read from the lookup page: empty when the page
/// reports an error; otherwise the values of the first two title rows that
/// have one, empty for those missing.
pub open spec fn server_info(error_marked: bool, rows: Seq<Seq<Seq<char>>>) -> (Seq<char>, Seq<char>) {
    let info = rows.filter(|r: Seq<Seq<char>>| r.len() > 1).map_values(|r: Seq<Seq<char>>| r[1]);
    if error_marked || info.len() == 0 {
        (Seq::empty(), Seq::empty())
    } else if info.len() == 1 {
        (info[0], Seq::empty())
    } else {
        (info[0], info[1])
    }
}

impl ServerInfoChecker {
    /// The domain named by `url`.
    pub fn extract_domain(url: &str) -> (r: String)
        ensures
            r@ == domain_of(url@),
    {
        extract_domain(url)
    }

    /// The page that reports the server of the domain named by `url`.
    pub fn lookup_url(url: &str) -> (r: String)
        ensures
            r@ == "https://aruljohn.com/webserver/"@ + domain_of(url@),
    {
        let d = extract_domain(url);
        String::from_str("https://aruljohn.com/webserver/").concat(d.as_str())
    }

    /// The server and language on the lookup page, from whether it shows an
    /// error and the cell texts of its title rows.
    pub fn parse_server_info(error_marked: bool, rows: &Vec<Vec<String>>) -> (r: (String, String))
        ensures
            (r.0@, r.1@) == server_info(
                error_marked,
                rows@.map_values(|row: Vec<String>| row@.map_values(|c: String| c@)),
            ),
    {
        let ghost rs = rows@.map_values(|row: Vec<String>| row@.map_values(|c: String| c@));
        let mut info: Vec<String> = Vec::new();
        let mut i: usize = 0;
        while i < rows.len()
            invariant
                i <= rows@.len(),
                rs == rows@.map_values(|row: Vec<String>| row@.map_values(|c: String| c@)),
                info@.map_values(|c: String| c@) == rs.subrange(0, i as int).filter(
                    |r: Seq<Seq<char>>| r.len() > 1,
                ).map_values(|r: Seq<Seq<char>>| r[1]),
            decreases rows@.len() - i,
        {
            let ghost prefix = rs.subrange(0, i as int + 1);
            assert(prefix.drop_last() =~= rs.subrange(0, i as int));
            assert(prefix.last() == rs[i as int]);
            proof {
                reveal(Seq::filter);
            }
            let ghost before = info@.map_values(|c: String| c@);
            if rows[i].len() > 1 {
                info.push(rows[i][1].clone());
                assert(info@.map_values(|c: String| c@) =~= before.push(rs[i as int][1]));
            }
            assert(info@.map_values(|c: String| c@) =~= prefix.filter(|r: Seq<Seq<char>>| r.len() > 1).map_values(
                |r: Seq<Seq<char>>| r[1],
            ));
            i += 1;
        }
        assert(rs.subrange(0, i as int) =~= rs);
        if error_marked || info.len() == 0 {
            (String::new(), String::new())
        } else if info.len() == 1 {
            (info[0].clone(), String::new())
        } else {
            (info[0].clone(), info[1].clone())
        }
    }

    /// The server data of `url`: its server and language when the lookup
    /// page was fetched, empty values when it was not.
    pub fn server_data(url: String, info: Option<(String, String)>) -> (r: ServerData)
        ensures
            r.website == url,
            info matches Some(p) ==> r.server == p.0 && r.language == p.1,
            info is None ==> r.server@.len() == 0 && r.language@.len() == 0,
    {
        match info {
            Some(p) => ServerData { website: url, server: p.0, language: p.1 },
            None => ServerData { website: url, server: String::new(), language: String::new() },
        }
    }
}

} // verus!
