//! The fingerprint engine: a fixed table of database engines, each with an
//! ordered list of error-message signatures, and classification of response
//! text against it.
use vstd::prelude::*;
use crate::pattern::{Pattern, regex_accepts, regex_matches};

verus! {

/// The database engines whose error output is recognized.
#[derive(Clone, Copy, Debug, PartialEq, Eq, Structural)]
pub enum Database {
    MySql,
    PostgreSql,
    SqlServer,
    Access,
    Oracle,
    Db2,
    Sqlite,
    Informix,
    Sybase,
}

/// The engines in the order in which classification tries them.
pub open spec fn engine_order() -> Seq<Database> {
    seq![
        Database::MySql,
        Database::PostgreSql,
        Database::SqlServer,
        Database::Access,
        Database::Oracle,
        Database::Db2,
        Database::Sqlite,
        Database::Informix,
        Database::Sybase,
    ]
}

/// The display name of an engine.
pub open spec fn engine_name(db: Database) -> Seq<char> {
    match db {
        Database::MySql => "MySQL"@,
        Database::PostgreSql => "PostgreSQL"@,
        Database::SqlServer => "Microsoft SQL Server"@,
        Database::Access => "Microsoft Access"@,
        Database::Oracle => "Oracle"@,
        Database::Db2 => "IBM DB2"@,
        Database::Sqlite => "SQLite"@,
        Database::Informix => "Informix"@,
        Database::Sybase => "Sybase"@,
    }
}

/// The signature patterns of an engine, in the order they are tried.
pub open spec fn engine_patterns(db: Database) -> Seq<Seq<char>> {
    match db {
        Database::MySql => seq![
            "SQL syntax.*MySQL"@,
            "Warning.*mysql_.*"@,
            "MySQL Query fail.*"@,
            "SQL syntax.*MariaDB server"@,
        ],
        Database::PostgreSql => seq![
            "PostgreSQL.*ERROR"@,
            "Warning.*\\Wpg_.*"@,
            "Warning.*PostgreSQL"@,
        ],
        Database::SqlServer => seq![
            "OLE DB.* SQL Server"@,
            "(\\W|\\A)SQL Server.*Driver"@,
            "Warning.*odbc_.*"@,
            "Warning.*mssql_"@,
            "Msg \\d+, Level \\d+, State \\d+"@,
            "Unclosed quotation mark after the character string"@,
            "Microsoft OLE DB Provider for ODBC Drivers"@,
        ],
        Database::Access => seq![
            "Microsoft Access Driver"@,
            "Access Database Engine"@,
            "Microsoft JET Database Engine"@,
            ".*Syntax error.*query expression"@,
        ],
        Database::Oracle => seq![
            "\\bORA-[0-9][0-9][0-9][0-9]"@,
            "Oracle error"@,
            "Warning.*oci_.*"@,
            "Microsoft OLE DB Provider for Oracle"@,
        ],
        Database::Db2 => seq!["CLI Driver.*DB2"@, "DB2 SQL error"@],
        Database::Sqlite => seq!["SQLite/JDBCDriver"@, "System.Data.SQLite.SQLiteException"@],
        Database::Informix => seq!["Warning.*ibase_.*"@, "com.informix.jdbc"@],
        Database::Sybase => seq!["Warning.*sybase.*"@, "Sybase message"@],
    }
}

/// The members of `s` that the regex crate accepts, in order.
pub open spec fn accepted(s: Seq<Seq<char>>) -> Seq<Seq<char>>
    decreases s.len(),
{
    if s.len() == 0 {
        s
    } else if regex_accepts(s.last()) {
        accepted(s.drop_last()).push(s.last())
    } else {
        accepted(s.drop_last())
    }
}

/// The patterns of `db` that the regex crate accepts, in table order.
pub open spec fn usable_patterns(db: Database) -> Seq<Seq<char>> {
    accepted(engine_patterns(db))
}

/// The signature table that a fresh checker holds.
pub open spec fn full_table() -> Seq<(Database, Seq<Seq<char>>)> {
    engine_order().map_values(|db: Database| (db, usable_patterns(db)))
}

/// Whether the regex crate accepts every pattern of every engine.
pub open spec fn all_usable() -> bool {
    forall|i: int, k: int|
        0 <= i < engine_order().len() && 0 <= k < engine_patterns(engine_order()[i]).len()
            ==> regex_accepts(#[trigger] engine_patterns(engine_order()[i])[k])
}

/// The signature table with every pattern of every engine.
pub open spec fn complete_table() -> Seq<(Database, Seq<Seq<char>>)> {
    engine_order().map_values(|db: Database| (db, engine_patterns(db)))
}

/// `accepted(s)` keeps all of `s` exactly when every member is accepted,
/// and is shorter otherwise.
pub proof fn lemma_accepted_all(s: Seq<Seq<char>>)
    ensures
        accepted(s).len() <= s.len(),
        (accepted(s).len() == s.len()) <==> (forall|k: int| 0 <= k < s.len() ==> regex_accepts(#[trigger] s[k])),
        (forall|k: int| 0 <= k < s.len() ==> regex_accepts(#[trigger] s[k])) ==> accepted(s) == s,
    decreases s.len(),
{
    if s.len() > 0 {
        let t = s.drop_last();
        lemma_accepted_all(t);
        assert forall|k: int| 0 <= k < t.len() implies t[k] == s[k] by {}
        if (forall|k: int| 0 <= k < s.len() ==> regex_accepts(#[trigger] s[k])) {
            assert(forall|k: int| 0 <= k < t.len() ==> regex_accepts(#[trigger] t[k])) by {
                assert forall|k: int| 0 <= k < t.len() implies regex_accepts(#[trigger] t[k]) by {
                    assert(regex_accepts(s[k]));
                }
            }
            assert(regex_accepts(s[s.len() - 1]));
            assert(accepted(s) =~= s);
        }
        if !regex_accepts(s.last()) {
            assert(!regex_accepts(s[s.len() - 1]));
        } else if accepted(s).len() == s.len() {
            assert forall|k: int| 0 <= k < s.len() implies regex_accepts(#[trigger] s[k]) by {
                if k < s.len() - 1 {
                    assert(regex_accepts(t[k]));
                }
            }
        }
    }
}

/// Whether any of `patterns` matches somewhere in `text`.
pub open spec fn any_match(patterns: Seq<Seq<char>>, text: Seq<char>) -> bool {
    exists|k: int| 0 <= k < patterns.len() && regex_matches(#[trigger] patterns[k], text)
}

/// Whether the signature at `i` of `table` recognizes `text`.
pub open spec fn hits(table: Seq<(Database, Seq<Seq<char>>)>, i: int, text: Seq<char>) -> bool {
    any_match(table[i].1, text)
}

/// What classifying `text` against `table` yields: the engine of the first
/// signature (in table order) with a pattern that matches, or `None`.
pub open spec fn classified(
    table: Seq<(Database, Seq<Seq<char>>)>,
    text: Seq<char>,
    r: Option<Database>,
) -> bool {
    match r {
        None => forall|i: int| 0 <= i < table.len() ==> !#[trigger] hits(table, i, text),
        Some(db) => exists|i: int|
            0 <= i < table.len() && #[trigger] hits(table, i, text) && table[i].0 == db
                && forall|j: int| 0 <= j < i ==> !#[trigger] hits(table, j, text),
    }
}

impl Database {
    /// The display name of the engine.
    pub fn name(&self) -> (r: &'static str)
        ensures
            r@ == engine_name(*self),
    {
        match self {
            Database::MySql => "MySQL",
            Database::PostgreSql => "PostgreSQL",
            Database::SqlServer => "Microsoft SQL Server",
            Database::Access => "Microsoft Access",
            Database::Oracle => "Oracle",
            Database::Db2 => "IBM DB2",
            Database::Sqlite => "SQLite",
            Database::Informix => "Informix",
            Database::Sybase => "Sybase",
        }
    }

    /// The signature patterns of the engine.
    pub fn patterns(&self) -> (r: Vec<&'static str>)
        ensures
            r@.len() == engine_patterns(*self).len(),
            forall|i: int| 0 <= i < r@.len() ==> #[trigger] r@[i]@ == engine_patterns(*self)[i],
    {
        match self {
            Database::MySql => vec![
                "SQL syntax.*MySQL",
                "Warning.*mysql_.*",
                "MySQL Query fail.*",
                "SQL syntax.*MariaDB server",
            ],
            Database::PostgreSql => vec![
                "PostgreSQL.*ERROR",
                "Warning.*\\Wpg_.*",
                "Warning.*PostgreSQL",
            ],
            Database::SqlServer => vec![
                "OLE DB.* SQL Server",
                "(\\W|\\A)SQL Server.*Driver",
                "Warning.*odbc_.*",
                "Warning.*mssql_",
                "Msg \\d+, Level \\d+, State \\d+",
                "Unclosed quotation mark after the character string",
                "Microsoft OLE DB Provider for ODBC Drivers",
            ],
            Database::Access => vec![
                "Microsoft Access Driver",
                "Access Database Engine",
                "Microsoft JET Database Engine",
                ".*Syntax error.*query expression",
            ],
            Database::Oracle => vec![
                "\\bORA-[0-9][0-9][0-9][0-9]",
                "Oracle error",
                "Warning.*oci_.*",
                "Microsoft OLE DB Provider for Oracle",
            ],
            Database::Db2 => vec!["CLI Driver.*DB2", "DB2 SQL error"],
            Database::Sqlite => vec!["SQLite/JDBCDriver", "System.Data.SQLite.SQLiteException"],
            Database::Informix => vec!["Warning.*ibase_.*", "com.informix.jdbc"],
            Database::Sybase => vec!["Warning.*sybase.*", "Sybase message"],
        }
    }
}

/// One engine with its compiled patterns, in table order.
struct Signature {
    database: Database,
    patterns: Vec<Pattern>,
}

impl Signature {
    spec fn sources(&self) -> Seq<Seq<char>> {
        self.patterns@.map_values(|p: Pattern| p@)
    }

    /// Compiles the patterns of `db`, keeping those the regex crate accepts.
    fn compile(db: Database) -> (r: Signature)
        ensures
            r.database == db,
            r.sources() == usable_patterns(db),
    {
        let sources = db.patterns();
        let ghost all = engine_patterns(db);
        let mut patterns: Vec<Pattern> = Vec::new();
        let mut i: usize = 0;
        while i < sources.len()
            invariant
                i <= sources@.len(),
                sources@.len() == all.len(),
                all == engine_patterns(db),
                forall|k: int| 0 <= k < sources@.len() ==> #[trigger] sources@[k]@ == all[k],
                patterns@.map_values(|p: Pattern| p@) == accepted(all.subrange(0, i as int)),
            decreases sources@.len() - i,
        {
            let ghost before = patterns@.map_values(|p: Pattern| p@);
            let compiled = Pattern::compile(sources[i]);
            match compiled {
                Some(p) => {
                    patterns.push(p);
                },
                None => {},
            }
            proof {
                let next = all.subrange(0, i + 1);
                assert(next.drop_last() =~= all.subrange(0, i as int));
                assert(next.last() == all[i as int]);
                assert(patterns@.map_values(|p: Pattern| p@) =~= accepted(next));
            }
            i += 1;
        }
        assert(all.subrange(0, all.len() as int) =~= all);
        Signature { database: db, patterns }
    }

    /// Whether one of the patterns matches somewhere in `text`.
    fn hits(&self, text: &str) -> (r: bool)
        ensures
            r == any_match(self.sources(), text@),
    {
        let mut k: usize = 0;
        while k < self.patterns.len()
            invariant
                k <= self.patterns@.len(),
                forall|m: int| 0 <= m < k ==> !regex_matches(#[trigger] self.sources()[m], text@),
            decreases self.patterns@.len() - k,
        {
            if self.patterns[k].is_match(text) {
                assert(regex_matches(self.sources()[k as int], text@));
                return true;
            }
            k += 1;
        }
        false
    }
}

/// An engine with a pattern that the regex crate rejects.
#[derive(Debug)]
pub struct SignatureCompileError {
    pub database: Database,
}

/// Recognizes database error output in response text. Holds the full
/// signature table, built once and never changed.
pub struct SqlErrorChecker {
    signatures: Vec<Signature>,
}

impl View for SqlErrorChecker {
    type V = Seq<(Database, Seq<Seq<char>>)>;

    closed spec fn view(&self) -> Seq<(Database, Seq<Seq<char>>)> {
        self.signatures@.map_values(|s: Signature| (s.database, s.sources()))
    }
}

impl SqlErrorChecker {
    /// Builds the signature table: every engine, in `engine_order`, with
    /// those of its patterns that the regex crate accepts.
    pub fn new() -> (r: Self)
        ensures
            r@ == full_table(),
    {
        let order: Vec<Database> = vec![
            Database::MySql,
            Database::PostgreSql,
            Database::SqlServer,
            Database::Access,
            Database::Oracle,
            Database::Db2,
            Database::Sqlite,
            Database::Informix,
            Database::Sybase,
        ];
        assert(order@ =~= engine_order());
        let mut signatures: Vec<Signature> = Vec::new();
        let mut i: usize = 0;
        while i < order.len()
            invariant
                i <= order@.len(),
                order@ == engine_order(),
                signatures@.len() == i,
                forall|k: int|
                    0 <= k < i ==> (#[trigger] signatures@[k]).database == order@[k]
                        && signatures@[k].sources() == usable_patterns(order@[k]),
            decreases order@.len() - i,
        {
            let sig = Signature::compile(order[i]);
            signatures.push(sig);
            i += 1;
        }
        let r = SqlErrorChecker { signatures };
        assert(r@ =~= full_table());
        r
    }

    /// Builds the full signature table, or reports an engine with a pattern
    /// that the regex crate rejects: a malformed table is unusable.
    pub fn try_new() -> (r: Result<Self, SignatureCompileError>)
        ensures
            r is Ok <==> all_usable(),
            r matches Ok(c) ==> c@ == complete_table(),
            r matches Err(e) ==> exists|k: int|
                0 <= k < engine_patterns(e.database).len() && !regex_accepts(
                    #[trigger] engine_patterns(e.database)[k],
                ),
    {
        let c = Self::new();
        assert(c@.len() == c.signatures@.len());
        assert(full_table().len() == engine_order().len());
        let mut i: usize = 0;
        while i < c.signatures.len()
            invariant
                c@ == full_table(),
                c.signatures@.len() == engine_order().len(),
                i <= c.signatures@.len(),
                forall|j: int, k: int|
                    0 <= j < i && 0 <= k < engine_patterns(engine_order()[j]).len() ==> regex_accepts(
                        #[trigger] engine_patterns(engine_order()[j])[k],
                    ),
            decreases c.signatures@.len() - i,
        {
            let db = c.signatures[i].database;
            assert(c@[i as int] == (db, c.signatures@[i as int].sources()));
            assert(full_table()[i as int] == (engine_order()[i as int], usable_patterns(engine_order()[i as int])));
            proof {
                lemma_accepted_all(engine_patterns(db));
            }
            if c.signatures[i].patterns.len() != db.patterns().len() {
                return Err(SignatureCompileError { database: db });
            }
            i += 1;
        }
        assert(c.signatures@.len() == engine_order().len());
        assert forall|j: int| 0 <= j < engine_order().len() implies accepted(
            engine_patterns(#[trigger] engine_order()[j]),
        ) == engine_patterns(engine_order()[j]) by {
            lemma_accepted_all(engine_patterns(engine_order()[j]));
        }
        assert(c@ =~= complete_table());
        Ok(c)
    }

    /// The engine of the first signature, in table order, with a pattern
    /// that matches somewhere in `text`; `None` when no pattern matches.
    pub fn classify(&self, text: &str) -> (r: Option<Database>)
        ensures
            classified(self@, text@, r),
    {
        let mut i: usize = 0;
        while i < self.signatures.len()
            invariant
                i <= self.signatures@.len(),
                forall|j: int| 0 <= j < i ==> !#[trigger] hits(self@, j, text@),
            decreases self.signatures@.len() - i,
        {
            let sig = &self.signatures[i];
            assert(self@[i as int] == (sig.database, sig.sources()));
            if sig.hits(text) {
                assert(hits(self@, i as int, text@));
                return Some(sig.database);
            }
            i += 1;
        }
        None
    }

    /// Classifies `text`: whether an engine was recognized, and its name.
    pub fn check(&self, text: &str) -> (r: (bool, Option<String>))
        ensures
            r.0 == r.1 is Some,
            r.1 is None ==> classified(self@, text@, None),
            r.1 matches Some(name) ==> exists|db: Database|
                classified(self@, text@, Some(db)) && name@ == #[trigger] engine_name(db),
    {
        match self.classify(text) {
            Some(db) => (true, Some(String::from_str(db.name()))),
            None => (false, None),
        }
    }
}

/// A text recognized by the signatures of exactly one engine is classified
/// as that engine, whatever the order of the table.
pub proof fn lemma_single_engine(table: Seq<(Database, Seq<Seq<char>>)>, text: Seq<char>, i: int, r: Option<Database>)
    requires
        0 <= i < table.len(),
        hits(table, i, text),
        forall|j: int| 0 <= j < table.len() && j != i ==> !#[trigger] hits(table, j, text),
        classified(table, text, r),
    ensures
        r == Some(table[i].0),
{
    match r {
        None => {
            assert(hits(table, i, text));
        },
        Some(db) => {
            let k = choose|k: int|
                0 <= k < table.len() && #[trigger] hits(table, k, text) && table[k].0 == db
                    && forall|j: int| 0 <= j < k ==> !#[trigger] hits(table, j, text);
            assert(k == i);
        },
    }
}

/// A text that no signature pattern matches is classified as no engine.
pub proof fn lemma_no_signature(table: Seq<(Database, Seq<Seq<char>>)>, text: Seq<char>, r: Option<Database>)
    requires
        forall|i: int, k: int|
            0 <= i < table.len() && 0 <= k < table[i].1.len() ==> !regex_matches(#[trigger] table[i].1[k], text),
        classified(table, text, r),
    ensures
        r is None,
{
    if let Some(db) = r {
        let k = choose|k: int|
            0 <= k < table.len() && #[trigger] hits(table, k, text) && table[k].0 == db
                && forall|j: int| 0 <= j < k ==> !#[trigger] hits(table, j, text);
        assert(hits(table, k, text));
        let m = choose|m: int| 0 <= m < table[k].1.len() && regex_matches(#[trigger] table[k].1[m], text);
        assert(regex_matches(table[k].1[m], text));
    }
}

} // verus!
