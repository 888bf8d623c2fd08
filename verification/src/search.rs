//! The search index: glob translation, query compilation, the
//! persistent document store behind a trusted interface, and the
//! verified post-filters over returned documents.

use vstd::prelude::*;
use tantivy::collector::TopDocs;
use tantivy::query::{FuzzyTermQuery, QueryParser, TermQuery};
use tantivy::schema::{Field, IndexRecordOption, Schema, Value, FAST, STORED, TEXT};
use tantivy::{DocAddress, TantivyDocument, Term};
use crate::entry::{EntryView, FileEntry};
use crate::errors::NexusError;
use crate::text::{
    ascii_eq_ignore_case, str_eq_ignore_ascii_case, str_to_chars, string_from_chars,
};

verus! {

/// How one character of a glob pattern reads as a regular expression:
/// `*` matches any run, `?` any one character, the regex
/// metacharacters are escaped, everything else stands for itself.
pub open spec fn glob_char(c: char) -> Seq<char> {
    if c == '*' {
        seq!['.', '*']
    } else if c == '?' {
        seq!['.']
    } else if c == '.' || c == '+' || c == '(' || c == ')' || c == '[' || c == ']' || c == '{'
        || c == '}' || c == '^' || c == '$' || c == '|' || c == '\\' {
        seq!['\\', c]
    } else {
        seq![c]
    }
}

/// The regex body of a glob pattern: each character expanded in turn.
pub open spec fn glob_body(s: Seq<char>) -> Seq<char>
    decreases s.len(),
{
    if s.len() == 0 {
        Seq::empty()
    } else {
        glob_char(s[0]) + glob_body(s.drop_first())
    }
}

/// The full translation: the expanded body anchored on both sides.
pub open spec fn spec_glob_to_regex(s: Seq<char>) -> Seq<char> {
    seq!['^'] + glob_body(s) + seq!['$']
}

/// Expanding a pattern one character longer appends that character's
/// expansion.
pub proof fn lemma_glob_body_push(s: Seq<char>, c: char)
    ensures
        glob_body(s.push(c)) == glob_body(s) + glob_char(c),
    decreases s.len(),
{
    if s.len() == 0 {
        assert(s.push(c)[0] == c);
        assert(s.push(c).drop_first() =~= s);
        assert(glob_body(s) =~= Seq::<char>::empty());
        assert(glob_body(s.push(c)) =~= glob_char(c) + glob_body(s));
        assert(glob_body(s.push(c)) =~= glob_body(s) + glob_char(c));
    } else {
        lemma_glob_body_push(s.drop_first(), c);
        assert(s.push(c).drop_first() =~= s.drop_first().push(c));
        assert(s.push(c)[0] == s[0]);
        assert(glob_body(s.push(c)) =~= glob_body(s) + glob_char(c));
    }
}

/// Translate a glob pattern to an anchored regular expression.
pub fn glob_to_regex(glob: &str) -> (r: String)
    ensures
        r@ == spec_glob_to_regex(glob@),
{
    let cs = str_to_chars(glob);
    let n = cs.len();
    let mut out: Vec<char> = Vec::new();
    out.push('^');
    let mut i: usize = 0;
    proof {
        assert(glob_body(glob@.take(0)) =~= Seq::<char>::empty());
        assert(out@ =~= seq!['^'] + glob_body(glob@.take(0)));
    }
    while i < n
        invariant
            n == cs@.len(),
            cs@ == glob@,
            i <= n,
            out@ == seq!['^'] + glob_body(glob@.take(i as int)),
        decreases n - i,
    {
        let ghost old_out = out@;
        let c = cs[i];
        if c == '*' {
            out.push('.');
            out.push('*');
        } else if c == '?' {
            out.push('.');
        } else if c == '.' || c == '+' || c == '(' || c == ')' || c == '[' || c == ']' || c == '{'
            || c == '}' || c == '^' || c == '$' || c == '|' || c == '\\' {
            out.push('\\');
            out.push(c);
        } else {
            out.push(c);
        }
        proof {
            lemma_glob_body_push(glob@.take(i as int), glob@[i as int]);
            assert(glob@.take(i + 1 as int) =~= glob@.take(i as int).push(glob@[i as int]));
            assert(out@ =~= old_out + glob_char(glob@[i as int]));
            assert(out@ =~= seq!['^'] + glob_body(glob@.take(i + 1 as int)));
        }
        i = i + 1;
    }
    out.push('$');
    proof {
        assert(glob@.take(n as int) =~= glob@);
        assert(out@ =~= spec_glob_to_regex(glob@));
    }
    string_from_chars(&out)
}

/// A pattern without glob metacharacters translates to itself with
/// only the regex escapes applied, between the anchors.
pub open spec fn escape_of(s: Seq<char>) -> Seq<char>
    decreases s.len(),
{
    if s.len() == 0 {
        Seq::empty()
    } else {
        (if s[0] == '.' || s[0] == '+' || s[0] == '(' || s[0] == ')' || s[0] == '[' || s[0] == ']'
            || s[0] == '{' || s[0] == '}' || s[0] == '^' || s[0] == '$' || s[0] == '|' || s[0]
            == '\\' {
            seq!['\\', s[0]]
        } else {
            seq![s[0]]
        }) + escape_of(s.drop_first())
    }
}

/// On strings free of `*` and `?`, the expanded body is exactly the
/// escape of the string.
pub proof fn lemma_glob_body_literal(s: Seq<char>)
    requires
        forall|i: int| 0 <= i < s.len() ==> s[i] != '*' && s[i] != '?',
    ensures
        glob_body(s) == escape_of(s),
    decreases s.len(),
{
    if s.len() == 0 {
        assert(glob_body(s) =~= escape_of(s));
    } else {
        assert(forall|i: int|
            0 <= i < s.drop_first().len() ==> s.drop_first()[i] != '*' && s.drop_first()[i]
                != '?');
        lemma_glob_body_literal(s.drop_first());
        assert(s[0] != '*' && s[0] != '?');
        assert(glob_char(s[0]) == (if s[0] == '.' || s[0] == '+' || s[0] == '(' || s[0] == ')'
            || s[0] == '[' || s[0] == ']' || s[0] == '{' || s[0] == '}' || s[0] == '^' || s[0]
            == '$' || s[0] == '|' || s[0] == '\\' {
            seq!['\\', s[0]]
        } else {
            seq![s[0]]
        }));
        assert(glob_body(s) =~= escape_of(s));
    }
}

/// On strings free of `*` and `?`, the glob translation is exactly the
/// anchored escape of the string.
pub proof fn law_glob_literal(s: Seq<char>)
    requires
        forall|i: int| 0 <= i < s.len() ==> s[i] != '*' && s[i] != '?',
    ensures
        spec_glob_to_regex(s) == seq!['^'] + escape_of(s) + seq!['$'],
{
    lemma_glob_body_literal(s);
}

/// The five ways a query string is interpreted.
#[derive(Debug, Clone, PartialEq, Eq, Structural)]
pub enum SearchType {
    /// Full-text search across name and path.
    Semantic,
    /// Glob pattern over the name and path.
    Glob,
    /// Regular expression over the name and path.
    Regex,
    /// Exact term match on the name.
    Exact,
    /// Fuzzy term match on the name, edit distance two.
    Fuzzy,
}

/// One query: the string, its interpretation, a result cap, and the
/// post-filters.
#[derive(Debug)]
pub struct SearchQuery {
    /// The query string.
    pub query: String,
    /// How the string is interpreted.
    pub search_type: SearchType,
    /// Most results to return.
    pub limit: usize,
    /// Keep only entries with one of these extensions.
    pub file_types: Option<Vec<String>>,
    /// Keep only entries at least this large.
    pub min_size: Option<u64>,
    /// Keep only entries at most this large.
    pub max_size: Option<u64>,
    /// Keep only entries on one of these drives.
    pub drives: Option<Vec<char>>,
    /// Keep only directories.
    pub dirs_only: bool,
    /// Keep only files.
    pub files_only: bool,
}

/// Mathematical value of a query.
#[verifier::ext_equal]
pub ghost struct QueryView {
    pub query: Seq<char>,
    pub search_type: SearchType,
    pub limit: int,
    pub file_types: Option<Seq<Seq<char>>>,
    pub min_size: Option<u64>,
    pub max_size: Option<u64>,
    pub drives: Option<Seq<char>>,
    pub dirs_only: bool,
    pub files_only: bool,
}

impl View for SearchQuery {
    type V = QueryView;

    open spec fn view(&self) -> QueryView {
        QueryView {
            query: self.query@,
            search_type: self.search_type,
            limit: self.limit as int,
            file_types: match self.file_types {
                Some(ref v) => Some(v.deep_view()),
                None => None,
            },
            min_size: self.min_size,
            max_size: self.max_size,
            drives: match self.drives {
                Some(ref v) => Some(v@),
                None => None,
            },
            dirs_only: self.dirs_only,
            files_only: self.files_only,
        }
    }
}

impl Default for SearchQuery {
    /// An empty full-text query: limit one hundred, no filters.
    fn default() -> (q: Self)
        ensures
            q@.query.len() == 0,
            q@.search_type == SearchType::Semantic,
            q@.limit == 100,
            q@.file_types is None,
            q@.min_size is None,
            q@.max_size is None,
            q@.drives is None,
            !q@.dirs_only,
            !q@.files_only,
    {
        SearchQuery {
            query: String::new(),
            search_type: SearchType::Semantic,
            limit: 100,
            file_types: None,
            min_size: None,
            max_size: None,
            drives: None,
            dirs_only: false,
            files_only: false,
        }
    }
}

/// One ranked search result. Results arrive in descending score
/// order; the score itself is not carried.
#[derive(Debug)]
pub struct SearchResult {
    /// The entry the matched document describes.
    pub entry: FileEntry,
    /// A text snippet, when the engine provides one.
    pub snippet: Option<String>,
}

/// The stored fields of one document, as plain values.
pub struct DocRecord {
    pub path: String,
    pub name: String,
    /// Empty when the entry has no extension.
    pub extension: String,
    pub size: u64,
    pub is_dir: bool,
    /// The drive tag as a string of one character.
    pub drive: String,
    pub parent: String,
    /// Modification time in seconds since the UNIX epoch; zero when
    /// unknown.
    pub modified: i64,
}

/// Mathematical value of one stored document.
#[verifier::ext_equal]
pub ghost struct DocView {
    pub path: Seq<char>,
    pub name: Seq<char>,
    pub extension: Seq<char>,
    pub size: u64,
    pub is_dir: bool,
    pub drive: Seq<char>,
    pub parent: Seq<char>,
    pub modified: i64,
}

impl View for DocRecord {
    type V = DocView;

    open spec fn view(&self) -> DocView {
        DocView {
            path: self.path@,
            name: self.name@,
            extension: self.extension@,
            size: self.size,
            is_dir: self.is_dir,
            drive: self.drive@,
            parent: self.parent@,
            modified: self.modified,
        }
    }
}

/// The document an entry is stored as: absent extension and times
/// become the empty string and zero, the drive becomes a one-letter
/// string.
pub open spec fn doc_of_entry(e: EntryView) -> DocView {
    DocView {
        path: e.path,
        name: e.name,
        extension: match e.extension {
            Some(x) => x,
            None => Seq::empty(),
        },
        size: e.size,
        is_dir: e.is_dir,
        drive: seq![e.drive],
        parent: e.parent,
        modified: match e.modified {
            Some(t) => t,
            None => 0,
        },
    }
}

/// The entry a stored document reads back as: an empty extension
/// becomes absent, the drive is the first stored character, times are
/// not recovered.
pub open spec fn entry_of_doc(d: DocView) -> EntryView {
    EntryView {
        path: d.path,
        name: d.name,
        extension: if d.extension.len() > 0 {
            Some(d.extension)
        } else {
            None
        },
        size: d.size,
        created: None,
        modified: None,
        accessed: None,
        is_dir: d.is_dir,
        is_hidden: false,
        is_system: false,
        content_hash: None,
        parent: d.parent,
        drive: if d.drive.len() > 0 {
            d.drive[0]
        } else {
            'C'
        },
    }
}

/// What tantivy's default tokenizer cuts a stored text into; the
/// token list is a function of the text alone.
pub uninterp spec fn name_tokens(s: Seq<char>) -> Seq<Seq<char>>;

/// An exact term query for `t` matches a document whose name
/// tokenizes to a list containing `t`.
pub open spec fn matches_exact(d: DocView, t: Seq<char>) -> bool {
    name_tokens(d.name).contains(t)
}

/// Whether tantivy's FuzzyTermQuery for `term` — edit distance two,
/// transpositions allowed — matches a document whose name field holds
/// `name`. The relation depends on the two texts alone.
pub uninterp spec fn fuzzy_name_matches(term: Seq<char>, name: Seq<char>) -> bool;

/// Whether the query tantivy's QueryParser compiles from `pattern` —
/// name and path being the default fields, though a pattern may
/// address any field — matches a document with the given stored
/// values. The relation depends on pattern and document alone.
pub uninterp spec fn parsed_matches(pattern: Seq<char>, d: DocView) -> bool;

/// Whether a query matches a stored document, by the query's own kind:
/// the token relation for exact queries, the fuzzy term relation for
/// fuzzy ones, the parsed-query relation — over the translated pattern
/// for globs — for the rest.
pub open spec fn query_matches(q: QueryView, d: DocView) -> bool {
    match q.search_type {
        SearchType::Exact => matches_exact(d, q.query),
        SearchType::Fuzzy => fuzzy_name_matches(q.query, d.name),
        SearchType::Glob => parsed_matches(spec_glob_to_regex(q.query), d),
        SearchType::Regex => parsed_matches(q.query, d),
        SearchType::Semantic => parsed_matches(q.query, d),
    }
}

/// The compiled form a query runs as.
pub enum QueryPlan {
    /// A term query against the name field.
    Exact(String),
    /// A fuzzy term query against the name field, distance two with
    /// transpositions.
    Fuzzy(String),
    /// A parsed query across name and path.
    Parsed(String),
}

/// The plan a query compiles to: its own string for exact, fuzzy and
/// full-text queries, the query parser's pattern for the rest, with
/// globs translated first.
pub open spec fn plan_matches(plan: &QueryPlan, q: QueryView) -> bool {
    match q.search_type {
        SearchType::Exact => plan matches QueryPlan::Exact(s) && s@ == q.query,
        SearchType::Fuzzy => plan matches QueryPlan::Fuzzy(s) && s@ == q.query,
        SearchType::Glob => plan matches QueryPlan::Parsed(s) && s@ == spec_glob_to_regex(
            q.query,
        ),
        SearchType::Regex => plan matches QueryPlan::Parsed(s) && s@ == q.query,
        SearchType::Semantic => plan matches QueryPlan::Parsed(s) && s@ == q.query,
    }
}

/// Compile a query into the plan it runs as.
pub fn compile_plan(query: &SearchQuery) -> (plan: QueryPlan)
    ensures
        plan_matches(&plan, query@),
{
    match query.search_type {
        SearchType::Exact => QueryPlan::Exact(query.query.clone()),
        SearchType::Fuzzy => QueryPlan::Fuzzy(query.query.clone()),
        SearchType::Glob => QueryPlan::Parsed(glob_to_regex(query.query.as_str())),
        SearchType::Regex => QueryPlan::Parsed(query.query.clone()),
        SearchType::Semantic => QueryPlan::Parsed(query.query.clone()),
    }
}

/// The post-filters of a query, applied to a stored document.
pub open spec fn spec_passes_filters(q: QueryView, d: DocView) -> bool {
    &&& (q.files_only ==> !d.is_dir)
    &&& (q.dirs_only ==> d.is_dir)
    &&& (match q.min_size {
        Some(m) => d.size >= m,
        None => true,
    })
    &&& (match q.max_size {
        Some(m) => d.size <= m,
        None => true,
    })
    &&& (match q.file_types {
        Some(ts) => d.extension.len() > 0 && exists|i: int|
            0 <= i < ts.len() && ascii_eq_ignore_case(#[trigger] ts[i], d.extension),
        None => true,
    })
    &&& (match q.drives {
        Some(ds) => ds.contains(
            if d.drive.len() > 0 {
                d.drive[0]
            } else {
                'C'
            },
        ),
        None => true,
    })
}

/// A query with no post-filters set.
pub open spec fn spec_no_filters(q: QueryView) -> bool {
    &&& q.file_types is None
    &&& q.min_size is None
    &&& q.max_size is None
    &&& q.drives is None
    &&& !q.dirs_only
    &&& !q.files_only
}

/// Check the post-filters of `query` against one document.
pub fn passes_filters(query: &SearchQuery, rec: &DocRecord) -> (b: bool)
    ensures
        b == spec_passes_filters(query@, rec@),
{
    if query.files_only && rec.is_dir {
        return false;
    }
    if query.dirs_only && !rec.is_dir {
        return false;
    }
    if let Some(m) = query.min_size {
        if rec.size < m {
            return false;
        }
    }
    if let Some(m) = query.max_size {
        if rec.size > m {
            return false;
        }
    }
    let ghost qv = query@;
    let ghost dv = rec@;
    match &query.file_types {
        Some(ts) => {
            if rec.extension.as_str().is_empty() {
                return false;
            }
            let n = ts.len();
            let mut i: usize = 0;
            let mut found = false;
            while i < n && !found
                invariant
                    qv == query@,
                    dv == rec@,
                    qv.file_types == Some(ts.deep_view()),
                    n == ts@.len(),
                    i <= n,
                    found ==> exists|k: int|
                        0 <= k < ts.deep_view().len() && ascii_eq_ignore_case(
                            #[trigger] ts.deep_view()[k],
                            dv.extension,
                        ),
                    !found ==> forall|k: int|
                        0 <= k < i ==> !ascii_eq_ignore_case(
                            #[trigger] ts.deep_view()[k],
                            dv.extension,
                        ),
                decreases n - i,
            {
                if str_eq_ignore_ascii_case(ts[i].as_str(), rec.extension.as_str()) {
                    proof {
                        assert(ts.deep_view()[i as int] == ts@[i as int]@);
                    }
                    found = true;
                }
                i = i + 1;
            }
            if !found {
                return false;
            }
        },
        None => {},
    }
    match &query.drives {
        Some(ds) => {
            let dcs = str_to_chars(rec.drive.as_str());
            let dc: char = if dcs.len() > 0 {
                dcs[0]
            } else {
                'C'
            };
            let n = ds.len();
            let mut i: usize = 0;
            let mut found = false;
            while i < n && !found
                invariant
                    qv == query@,
                    dv == rec@,
                    qv.drives == Some(ds@),
                    n == ds@.len(),
                    i <= n,
                    dc == (if dv.drive.len() > 0 {
                        dv.drive[0]
                    } else {
                        'C'
                    }),
                    found ==> ds@.contains(dc),
                    !found ==> forall|k: int| 0 <= k < i ==> ds@[k] != dc,
                decreases n - i,
            {
                if ds[i] == dc {
                    found = true;
                }
                i = i + 1;
            }
            if !found {
                proof {
                    assert(forall|k: int| 0 <= k < ds@.len() ==> ds@[k] != dc);
                    assert(!ds@.contains(dc));
                }
                return false;
            }
        },
        None => {},
    }
    proof {
        assert(spec_passes_filters(qv, dv));
    }
    true
}

/// tantivy's field handle, carried in signatures.
#[verifier::external_type_specification]
#[verifier::external_body]
pub struct ExField(Field);

/// tantivy's schema, carried from schema building to index opening.
#[verifier::external_type_specification]
#[verifier::external_body]
pub struct ExSchema(Schema);

/// tantivy's document address, an opaque handle into one searcher
/// snapshot.
#[verifier::external_type_specification]
#[verifier::external_body]
pub struct ExDocAddress(DocAddress);

/// The eight field handles of the entry schema.
#[derive(Clone, Copy)]
pub struct SearchFields {
    pub f_path: Field,
    pub f_name: Field,
    pub f_extension: Field,
    pub f_size: Field,
    pub f_is_dir: Field,
    pub f_drive: Field,
    pub f_parent: Field,
    pub f_modified: Field,
}

/// Relies on tantivy's SchemaBuilder (add_text_field, add_u64_field,
/// add_i64_field, build): declares the stored and indexed entry
/// fields — path, name, extension, drive and parent as tokenized
/// stored text, size and the directory flag as stored fast integers,
/// the modification time as a stored fast signed integer.
#[verifier::external_body]
fn entry_schema() -> (Schema, SearchFields) {
    let mut b = Schema::builder();
    let t = TEXT | STORED;
    let f = FAST | STORED;
    let f_path = b.add_text_field("path", t.clone());
    let f_name = b.add_text_field("name", t.clone());
    let f_extension = b.add_text_field("extension", t.clone());
    let f_size = b.add_u64_field("size", f.clone());
    let f_is_dir = b.add_u64_field("is_dir", f.clone());
    let f_drive = b.add_text_field("drive", t.clone());
    let f_parent = b.add_text_field("parent", t);
    let f_modified = b.add_i64_field("modified", f);
    (
        b.build(),
        SearchFields { f_path, f_name, f_extension, f_size, f_is_dir, f_drive, f_parent, f_modified },
    )
}

/// The persistent document store: a tantivy index with its reader and
/// its single writer. The committed documents, the staged additions,
/// and a staged delete-all mark model its state.
#[verifier::external_body]
pub struct SearchCore {
    index: tantivy::Index,
    reader: tantivy::IndexReader,
    writer: parking_lot::Mutex<tantivy::IndexWriter>,
    fields: SearchFields,
}

/// The committed documents of the store, in stored order.
pub uninterp spec fn core_docs(c: &SearchCore) -> Seq<DocView>;

/// The documents staged since the last commit, in staging order.
pub uninterp spec fn core_pending(c: &SearchCore) -> Seq<DocView>;

/// Whether a delete-all is staged.
pub uninterp spec fn core_cleared(c: &SearchCore) -> bool;

/// The writer still holds its directory lock. Every operation leaves
/// the lock in place except a failed rollback, which consumes it; a
/// later writer call on such a store could abort, so the writer
/// operations ask for this.
pub uninterp spec fn core_usable(c: &SearchCore) -> bool;

/// The reader has loaded the state of the last commit. Every accepted
/// commit re-synchronises the reader; after a commit whose reload
/// failed, what a reader sees is left open, and the reading
/// operations promise nothing.
pub uninterp spec fn core_synced(c: &SearchCore) -> bool;

/// One searcher snapshot taken while answering a query, with the
/// field handles needed to read its documents.
#[verifier::external_body]
pub struct SearcherBox {
    searcher: tantivy::Searcher,
    fields: SearchFields,
}

/// The document a snapshot holds at an address; fixed for one
/// snapshot value.
pub uninterp spec fn addr_doc(sb: &SearcherBox, addr: DocAddress) -> DocView;

/// The address denotes a document of this snapshot. Reading an
/// address of one snapshot through another could abort inside the
/// store, so the loading operations ask for this.
pub uninterp spec fn addr_in_snapshot(sb: &SearcherBox, addr: DocAddress) -> bool;

/// The address `a` reads back as one of the documents in `docs`.
pub open spec fn hit_in_docs(sb: &SearcherBox, a: DocAddress, docs: Seq<DocView>) -> bool {
    exists|j: int| 0 <= j < docs.len() && addr_doc(sb, a) == #[trigger] docs[j]
}

/// Some address among `addrs` reads back as the document `d`.
pub open spec fn doc_returned(sb: &SearcherBox, addrs: Seq<DocAddress>, d: DocView) -> bool {
    exists|i: int| 0 <= i < addrs.len() && addr_doc(sb, #[trigger] addrs[i]) == d
}

/// The entry value `e` reads back from one of the documents in
/// `docs` that passes the filters of `q`.
pub open spec fn result_from_docs(q: QueryView, e: EntryView, docs: Seq<DocView>) -> bool {
    exists|j: int|
        0 <= j < docs.len() && e == entry_of_doc(#[trigger] docs[j]) && spec_passes_filters(
            q,
            docs[j],
        )
}

impl SearchCore {
    /// Relies on tantivy's MmapDirectory::open, Index::open_or_create,
    /// Index::reader and Index::writer: opens or creates the
    /// persistent index in an existing directory with a 50 MB writer
    /// arena. A fresh store has nothing staged.
    #[verifier::external_body]
    fn open(path: &String, schema: Schema, fields: SearchFields) -> (r: Result<
        SearchCore,
        String,
    >)
        ensures
            match r {
                Ok(c) => core_pending(&c) == Seq::<DocView>::empty() && !core_cleared(&c)
                    && core_usable(&c) && core_synced(&c),
                Err(_) => true,
            },
    {
        let dir = tantivy::directory::MmapDirectory::open(path.as_str()).map_err(
            |e| e.to_string(),
        )?;
        let index = tantivy::Index::open_or_create(dir, schema).map_err(|e| e.to_string())?;
        let reader = index.reader().map_err(|e| e.to_string())?;
        let writer = index.writer(50_000_000).map_err(|e| e.to_string())?;
        Ok(SearchCore { index, reader, writer: parking_lot::Mutex::new(writer), fields })
    }

    /// Relies on IndexWriter::add_document: stages one document built
    /// from the record's fields. Nothing becomes visible before a
    /// commit; on failure the visible documents are unchanged.
    #[verifier::external_body]
    fn put_doc(&mut self, r: &DocRecord) -> (res: Result<(), String>)
        requires
            core_usable(old(self)),
        ensures
            core_usable(final(self)),
            core_synced(final(self)) == core_synced(old(self)),
            match res {
                Ok(_) => core_pending(final(self)) == core_pending(old(self)).push(r@)
                    && core_docs(final(self)) == core_docs(old(self)) && core_cleared(final(self))
                    == core_cleared(old(self)),
                Err(_) => core_docs(final(self)) == core_docs(old(self)),
            },
    {
        let mut doc = TantivyDocument::new();
        doc.add_text(self.fields.f_path, r.path.as_str());
        doc.add_text(self.fields.f_name, r.name.as_str());
        doc.add_text(self.fields.f_extension, r.extension.as_str());
        doc.add_u64(self.fields.f_size, r.size);
        doc.add_u64(self.fields.f_is_dir, if r.is_dir { 1 } else { 0 });
        doc.add_text(self.fields.f_drive, r.drive.as_str());
        doc.add_text(self.fields.f_parent, r.parent.as_str());
        doc.add_i64(self.fields.f_modified, r.modified);
        self.writer.lock().add_document(doc).map(|_| ()).map_err(|e| e.to_string())
    }

    /// Relies on IndexWriter::commit and IndexReader::reload: an
    /// accepted commit publishes exactly the staged work — everything
    /// when nothing was deleted, the staged documents alone after a
    /// delete-all — and the reload makes it visible to the next
    /// searcher. A failed call publishes either nothing or exactly the
    /// staged work, never part of it: the commit itself is atomic, and
    /// after it only the reload can fail.
    #[verifier::external_body]
    fn commit_now(&mut self) -> (res: Result<(), String>)
        requires
            core_usable(old(self)),
        ensures
            core_usable(final(self)),
            match res {
                Ok(_) => core_docs(final(self)) == (if core_cleared(old(self)) {
                    core_pending(old(self))
                } else {
                    core_docs(old(self)) + core_pending(old(self))
                }) && core_pending(final(self)) == Seq::<DocView>::empty() && !core_cleared(
                    final(self),
                ) && core_synced(final(self)),
                Err(_) => core_docs(final(self)) == core_docs(old(self)) || core_docs(
                    final(self),
                ) == (if core_cleared(old(self)) {
                    core_pending(old(self))
                } else {
                    core_docs(old(self)) + core_pending(old(self))
                }),
            },
    {
        self.writer.lock().commit().map_err(|e| e.to_string())?;
        self.reader.reload().map_err(|e| e.to_string())
    }

    /// Relies on IndexWriter::rollback: discards everything staged
    /// since the last commit; the committed documents are unchanged
    /// either way. A failed rollback may consume the writer's
    /// directory lock, so nothing of `core_usable` is promised on Err.
    #[verifier::external_body]
    fn rollback_pending(&mut self) -> (res: Result<(), String>)
        requires
            core_usable(old(self)),
        ensures
            core_synced(final(self)) == core_synced(old(self)),
            match res {
                Ok(_) => core_pending(final(self)) == Seq::<DocView>::empty() && !core_cleared(
                    final(self),
                ) && core_docs(final(self)) == core_docs(old(self)) && core_usable(final(self)),
                Err(_) => core_docs(final(self)) == core_docs(old(self)),
            },
    {
        self.writer.lock().rollback().map(|_| ()).map_err(|e| e.to_string())
    }

    /// Relies on IndexWriter::delete_all_documents: with nothing else
    /// staged, stages the removal of every document; nothing changes
    /// before the commit.
    #[verifier::external_body]
    fn delete_all(&mut self) -> (res: Result<(), String>)
        requires
            core_usable(old(self)),
            core_pending(old(self)).len() == 0,
        ensures
            core_usable(final(self)),
            core_synced(final(self)) == core_synced(old(self)),
            match res {
                Ok(_) => core_cleared(final(self)) && core_pending(final(self)) == Seq::<
                    DocView,
                >::empty() && core_docs(final(self)) == core_docs(old(self)),
                Err(_) => core_docs(final(self)) == core_docs(old(self)),
            },
    {
        self.writer.lock().delete_all_documents().map(|_| ()).map_err(|e| e.to_string())
    }

    /// Relies on Searcher::num_docs: on a synchronised reader, how
    /// many committed documents there are.
    #[verifier::external_body]
    fn num_docs_now(&self) -> (n: u64)
        ensures
            core_synced(self) ==> n == core_docs(self).len(),
    {
        self.reader.searcher().num_docs()
    }

    /// Relies on Searcher::segment_readers: how many segments the
    /// visible snapshot spans.
    #[verifier::external_body]
    fn num_segments_now(&self) -> u64 {
        self.reader.searcher().segment_readers().len() as u64
    }

    /// Relies on Searcher::search with TopDocs, on TermQuery and on
    /// FuzzyTermQuery (distance two, transpositions allowed): runs a
    /// term query for `text` against the name field and returns the
    /// snapshot used with the addresses of the ranked hits, best
    /// first. Every address belongs to that snapshot; on a
    /// synchronised reader every hit is a committed document, and a
    /// query that returns fewer hits than the cap has returned every
    /// matching document — by the token relation for an exact term,
    /// by the fuzzy term relation otherwise.
    #[verifier::external_body]
    fn search_term_hits(&self, text: &String, fuzzy: bool, limit: usize) -> (r: Result<
        (SearcherBox, Vec<DocAddress>),
        String,
    >)
        requires
            limit >= 1,
        ensures
            match r {
                Ok(p) => {
                    &&& p.1@.len() <= limit
                    &&& forall|i: int|
                        0 <= i < p.1@.len() ==> addr_in_snapshot(&p.0, #[trigger] p.1@[i])
                    &&& core_synced(self) ==> forall|i: int|
                        0 <= i < p.1@.len() ==> hit_in_docs(
                            &p.0,
                            #[trigger] p.1@[i],
                            core_docs(self),
                        )
                    &&& (core_synced(self) && !fuzzy) ==> p.1@.len() < limit ==> forall|j: int|
                        0 <= j < core_docs(self).len() && name_tokens(
                            (#[trigger] core_docs(self)[j]).name,
                        ).contains(text@) ==> doc_returned(&p.0, p.1@, core_docs(self)[j])
                    &&& (core_synced(self) && fuzzy) ==> p.1@.len() < limit ==> forall|j: int|
                        0 <= j < core_docs(self).len() && fuzzy_name_matches(
                            text@,
                            (#[trigger] core_docs(self)[j]).name,
                        ) ==> doc_returned(&p.0, p.1@, core_docs(self)[j])
                },
                Err(_) => true,
            },
    {
        let s = self.reader.searcher();
        let t = Term::from_field_text(self.fields.f_name, text.as_str());
        let q: Box<dyn tantivy::query::Query> = if fuzzy { Box::new(FuzzyTermQuery::new(t, 2, true)) } else { Box::new(TermQuery::new(t, IndexRecordOption::Basic)) };
        let top = s.search(&q, &TopDocs::with_limit(limit).order_by_score()).map_err(|e| e.to_string())?;
        Ok((SearcherBox { searcher: s, fields: self.fields }, top.into_iter().map(|(_, a)| a).collect()))
    }

    /// Relies on QueryParser::parse_query over the name and path
    /// fields and on Searcher::search with TopDocs: runs the parsed
    /// pattern and returns the snapshot used with the addresses of
    /// the ranked hits, best first. Every address belongs to that
    /// snapshot; on a synchronised reader every hit is a committed
    /// document, and fewer hits than the cap means every document the
    /// parsed query matches was returned.
    #[verifier::external_body]
    fn search_parsed_hits(&self, pattern: &String, limit: usize) -> (r: Result<
        (SearcherBox, Vec<DocAddress>),
        String,
    >)
        requires
            limit >= 1,
        ensures
            match r {
                Ok(p) => {
                    &&& p.1@.len() <= limit
                    &&& forall|i: int|
                        0 <= i < p.1@.len() ==> addr_in_snapshot(&p.0, #[trigger] p.1@[i])
                    &&& core_synced(self) ==> forall|i: int|
                        0 <= i < p.1@.len() ==> hit_in_docs(
                            &p.0,
                            #[trigger] p.1@[i],
                            core_docs(self),
                        )
                    &&& core_synced(self) ==> p.1@.len() < limit ==> forall|j: int|
                        0 <= j < core_docs(self).len() && parsed_matches(
                            pattern@,
                            #[trigger] core_docs(self)[j],
                        ) ==> doc_returned(&p.0, p.1@, core_docs(self)[j])
                },
                Err(_) => true,
            },
    {
        let s = self.reader.searcher();
        let pq = QueryParser::for_index(&self.index, vec![self.fields.f_name, self.fields.f_path]).parse_query(pattern.as_str()).map_err(|e| e.to_string())?;
        let top = s.search(&pq, &TopDocs::with_limit(limit).order_by_score()).map_err(|e| e.to_string())?;
        Ok((SearcherBox { searcher: s, fields: self.fields }, top.into_iter().map(|(_, a)| a).collect()))
    }
}

/// Relies on Searcher::doc and the stored text accessors: the five
/// stored strings of the document at one address of the snapshot,
/// absent values reading as empty.
#[verifier::external_body]
fn load_hit_strings(sb: &SearcherBox, addr: DocAddress) -> (r: Result<
    (String, String, String, String, String),
    String,
>)
    requires
        addr_in_snapshot(sb, addr),
    ensures
        match r {
            Ok(t) => t.0@ == addr_doc(sb, addr).path && t.1@ == addr_doc(sb, addr).name && t.2@
                == addr_doc(sb, addr).extension && t.3@ == addr_doc(sb, addr).drive && t.4@
                == addr_doc(sb, addr).parent,
            Err(_) => true,
        },
{
    let d: TantivyDocument = sb.searcher.doc(addr).map_err(|e| e.to_string())?;
    let f = &sb.fields;
    let gs = |f2: Field| d.get_first(f2).and_then(|v| v.as_str()).unwrap_or("").to_string();
    Ok((gs(f.f_path), gs(f.f_name), gs(f.f_extension), gs(f.f_drive), gs(f.f_parent)))
}

/// Relies on Searcher::doc and the stored numeric accessors: the
/// size, directory flag and modification time of the document at one
/// address of the snapshot, absent values reading as zero.
#[verifier::external_body]
fn load_hit_numbers(sb: &SearcherBox, addr: DocAddress) -> (r: Result<(u64, bool, i64), String>)
    requires
        addr_in_snapshot(sb, addr),
    ensures
        match r {
            Ok(t) => t.0 == addr_doc(sb, addr).size && t.1 == addr_doc(sb, addr).is_dir && t.2
                == addr_doc(sb, addr).modified,
            Err(_) => true,
        },
{
    let d: TantivyDocument = sb.searcher.doc(addr).map_err(|e| e.to_string())?;
    let f = &sb.fields;
    let gu = |f2: Field| d.get_first(f2).and_then(|v| v.as_u64()).unwrap_or(0);
    Ok((gu(f.f_size), gu(f.f_is_dir) == 1, d.get_first(f.f_modified).and_then(|v| v.as_i64()).unwrap_or(0)))
}

/// Read the whole document at one address of the snapshot.
fn load_hit(sb: &SearcherBox, addr: DocAddress) -> (r: Result<DocRecord, String>)
    requires
        addr_in_snapshot(sb, addr),
    ensures
        match r {
            Ok(d) => d@ == addr_doc(sb, addr),
            Err(_) => true,
        },
{
    let strings = load_hit_strings(sb, addr)?;
    let numbers = load_hit_numbers(sb, addr)?;
    let (path, name, extension, drive, parent) = strings;
    let rec = DocRecord {
        path,
        name,
        extension,
        size: numbers.0,
        is_dir: numbers.1,
        drive,
        parent,
        modified: numbers.2,
    };
    proof {
        assert(rec@ =~= addr_doc(sb, addr));
    }
    Ok(rec)
}

/// Build the stored document record of one entry.
pub fn doc_record_of(entry: &FileEntry) -> (r: DocRecord)
    ensures
        r@ == doc_of_entry(entry@),
{
    let extension: String = match &entry.extension {
        Some(x) => x.clone(),
        None => String::new(),
    };
    let mut dv: Vec<char> = Vec::new();
    dv.push(entry.drive);
    let drive = string_from_chars(&dv);
    let modified: i64 = match entry.modified {
        Some(t) => t,
        None => 0,
    };
    let r = DocRecord {
        path: entry.path.clone(),
        name: entry.name.clone(),
        extension,
        size: entry.size,
        is_dir: entry.is_dir,
        drive,
        parent: entry.parent.clone(),
        modified,
    };
    proof {
        assert(r@ =~= doc_of_entry(entry@));
    }
    r
}

/// Rebuild the entry a stored document describes.
pub fn entry_from_doc(rec: DocRecord) -> (e: FileEntry)
    ensures
        e@ == entry_of_doc(rec@),
{
    let extension: Option<String> = if rec.extension.as_str().is_empty() {
        None
    } else {
        Some(rec.extension)
    };
    let dcs = str_to_chars(rec.drive.as_str());
    let drive: char = if dcs.len() > 0 {
        dcs[0]
    } else {
        'C'
    };
    let e = FileEntry {
        path: rec.path,
        name: rec.name,
        extension,
        size: rec.size,
        created: None,
        modified: None,
        accessed: None,
        is_dir: rec.is_dir,
        is_hidden: false,
        is_system: false,
        content_hash: None,
        parent: rec.parent,
        drive,
    };
    proof {
        assert(e@ =~= entry_of_doc(rec@));
    }
    e
}

/// The persistent search index over file entries.
pub struct SearchEngine {
    core: SearchCore,
}

/// The committed documents of an engine.
pub closed spec fn engine_docs(e: &SearchEngine) -> Seq<DocView> {
    core_docs(&e.core)
}

/// The documents an engine has staged but not committed.
pub closed spec fn engine_pending(e: &SearchEngine) -> Seq<DocView> {
    core_pending(&e.core)
}

/// Whether an engine has a delete-all staged.
pub closed spec fn engine_cleared(e: &SearchEngine) -> bool {
    core_cleared(&e.core)
}

/// The engine's writer is intact: it still holds its directory lock.
/// Every successful call keeps this; after a failed call it is no
/// longer known, and the engine should be dropped.
pub closed spec fn engine_usable(e: &SearchEngine) -> bool {
    core_usable(&e.core)
}

/// The engine's reader shows the last commit. Every successful call
/// keeps this; after a failed commit it is no longer known, and the
/// reading operations promise nothing until a commit succeeds again.
pub closed spec fn engine_synced(e: &SearchEngine) -> bool {
    core_synced(&e.core)
}

/// A compiled plan names the search type it came from and carries the
/// string that type prescribes.
proof fn lemma_plan_shape(plan: &QueryPlan, q: QueryView)
    requires
        plan_matches(plan, q),
    ensures
        match plan {
            QueryPlan::Exact(t) => q.search_type == SearchType::Exact && t@ == q.query,
            QueryPlan::Fuzzy(t) => q.search_type == SearchType::Fuzzy && t@ == q.query,
            QueryPlan::Parsed(t) => (q.search_type == SearchType::Glob && t@
                == spec_glob_to_regex(q.query)) || ((q.search_type == SearchType::Regex
                || q.search_type == SearchType::Semantic) && t@ == q.query),
        },
{
}

impl SearchEngine {
    /// Open or create the index persisted in the directory at `path`.
    /// The directory itself must exist: creating it is filesystem work
    /// that belongs to the caller. A fresh engine has nothing staged,
    /// an intact writer, and a reader at the last commit.
    pub fn new(path: &String) -> (r: Result<SearchEngine, NexusError>)
        ensures
            match r {
                Ok(e) => engine_pending(&e) == Seq::<DocView>::empty() && !engine_cleared(&e)
                    && engine_usable(&e) && engine_synced(&e),
                Err(e) => e is Index,
            },
    {
        let (schema, fields) = entry_schema();
        match SearchCore::open(path, schema, fields) {
            Ok(core) => Ok(SearchEngine { core }),
            Err(m) => Err(NexusError::Index(m)),
        }
    }

    /// Add every entry of the batch as a document and commit once.
    /// The batch is atomic: on success exactly the batch becomes
    /// visible behind the documents already committed; on failure
    /// either nothing of the batch is visible or — only when the
    /// commit landed and making it visible failed — all of it, never
    /// part of it. After a failure the engine should be dropped: its
    /// writer and reader state are no longer known.
    pub fn index_entries(&mut self, entries: &Vec<FileEntry>) -> (r: Result<(), NexusError>)
        requires
            engine_usable(old(self)),
        ensures
            match r {
                Ok(_) => engine_docs(final(self)) == engine_docs(old(self)) + entries@.map_values(
                    |e: FileEntry| doc_of_entry(e@),
                ) && engine_usable(final(self)) && engine_synced(final(self)),
                Err(e) => (engine_docs(final(self)) == engine_docs(old(self)) || engine_docs(
                    final(self),
                ) == engine_docs(old(self)) + entries@.map_values(|e: FileEntry| doc_of_entry(e@)))
                    && (e is Index),
            },
    {
        let ghost docs0 = core_docs(&self.core);
        let ghost batch = entries@.map_values(|e: FileEntry| doc_of_entry(e@));
        match self.core.rollback_pending() {
            Ok(_) => {},
            Err(m) => {
                return Err(NexusError::Index(m));
            },
        }
        let n = entries.len();
        let mut i: usize = 0;
        proof {
            assert(core_pending(&self.core) =~= batch.take(0));
        }
        while i < n
            invariant
                n == entries@.len(),
                batch == entries@.map_values(|e: FileEntry| doc_of_entry(e@)),
                i <= n,
                docs0 == core_docs(&self.core),
                docs0 == engine_docs(old(self)),
                core_usable(&self.core),
                !core_cleared(&self.core),
                core_pending(&self.core) == batch.take(i as int),
            decreases n - i,
        {
            let rec = doc_record_of(&entries[i]);
            match self.core.put_doc(&rec) {
                Ok(_) => {},
                Err(m) => {
                    return Err(NexusError::Index(m));
                },
            }
            proof {
                assert(batch.take(i + 1 as int) =~= batch.take(i as int).push(
                    batch[i as int],
                ));
            }
            i = i + 1;
        }
        proof {
            assert(batch.take(n as int) =~= batch);
        }
        match self.core.commit_now() {
            Ok(_) => Ok(()),
            Err(m) => Err(NexusError::Index(m)),
        }
    }

    /// Delete every document and commit. On success the index is
    /// empty; on failure it is unchanged or — only when the deletion
    /// landed and making it visible failed — empty, and the engine
    /// should be dropped.
    pub fn clear(&mut self) -> (r: Result<(), NexusError>)
        requires
            engine_usable(old(self)),
        ensures
            match r {
                Ok(_) => engine_docs(final(self)) == Seq::<DocView>::empty() && engine_usable(
                    final(self),
                ) && engine_synced(final(self)),
                Err(e) => (engine_docs(final(self)) == engine_docs(old(self)) || engine_docs(
                    final(self),
                ) == Seq::<DocView>::empty()) && (e is Index),
            },
    {
        match self.core.rollback_pending() {
            Ok(_) => {},
            Err(m) => {
                return Err(NexusError::Index(m));
            },
        }
        match self.core.delete_all() {
            Ok(_) => {},
            Err(m) => {
                return Err(NexusError::Index(m));
            },
        }
        match self.core.commit_now() {
            Ok(_) => Ok(()),
            Err(m) => Err(NexusError::Index(m)),
        }
    }

    /// The number of committed documents — as the reader reports it,
    /// exact on a synchronised engine — and the number of segments
    /// they span.
    pub fn stats(&self) -> (r: (u64, u64))
        ensures
            engine_synced(self) ==> r.0 == engine_docs(self).len(),
    {
        (self.core.num_docs_now(), self.core.num_segments_now())
    }

    /// Run a query: compile it, rank the hits, read each hit back and
    /// apply the post-filters. Never more results than the limit; on a
    /// synchronised engine, every returned result is a committed
    /// document that passes the filters, in ranking order, an empty
    /// index returns no results, and a query without filters that
    /// returns fewer results than its limit has returned one result
    /// for every document it matches.
    pub fn search(&self, query: &SearchQuery) -> (r: Result<Vec<SearchResult>, NexusError>)
        ensures
            match r {
                Ok(rs) => {
                    &&& rs@.len() <= query@.limit
                    &&& engine_synced(self) ==> forall|i: int|
                        0 <= i < rs@.len() ==> result_from_docs(
                            query@,
                            (#[trigger] rs@[i]).entry@,
                            engine_docs(self),
                        )
                    &&& (engine_synced(self) && engine_docs(self).len() == 0) ==> rs@.len() == 0
                    &&& (engine_synced(self) && spec_no_filters(query@) && rs@.len()
                        < query@.limit) ==> forall|j: int|
                        0 <= j < engine_docs(self).len() && query_matches(
                            query@,
                            #[trigger] engine_docs(self)[j],
                        ) ==> exists|i: int|
                            0 <= i < rs@.len() && (#[trigger] rs@[i]).entry@.path == engine_docs(
                                self,
                            )[j].path
                },
                Err(e) => e is Search,
            },
    {
        let ghost docs = core_docs(&self.core);
        let ghost synced = core_synced(&self.core);
        if query.limit == 0 {
            let rs: Vec<SearchResult> = Vec::new();
            return Ok(rs);
        }
        let plan = compile_plan(query);
        let outcome = match &plan {
            QueryPlan::Exact(t) => self.core.search_term_hits(t, false, query.limit),
            QueryPlan::Fuzzy(t) => self.core.search_term_hits(t, true, query.limit),
            QueryPlan::Parsed(t) => self.core.search_parsed_hits(t, query.limit),
        };
        let hits = match outcome {
            Ok(p) => p,
            Err(m) => {
                return Err(NexusError::Search(m));
            },
        };
        proof {
            lemma_plan_shape(&plan, query@);
            if synced {
                assert forall|j: int|
                    hits.1@.len() < query@.limit && 0 <= j < docs.len() && query_matches(
                        query@,
                        #[trigger] docs[j],
                    ) implies doc_returned(&hits.0, hits.1@, docs[j]) by {
                    match &plan {
                        QueryPlan::Exact(t) => {
                            assert(name_tokens(docs[j].name).contains(t@));
                        },
                        QueryPlan::Fuzzy(t) => {
                            assert(fuzzy_name_matches(t@, docs[j].name));
                        },
                        QueryPlan::Parsed(t) => {
                            assert(parsed_matches(t@, docs[j]));
                        },
                    }
                }
            }
        }
        let ghost complete = forall|j: int|
            hits.1@.len() < query@.limit && 0 <= j < docs.len() && query_matches(
                query@,
                #[trigger] docs[j],
            ) ==> doc_returned(&hits.0, hits.1@, docs[j]);
        let ghost no_filters = spec_no_filters(query@);
        let n = hits.1.len();
        let mut out: Vec<SearchResult> = Vec::new();
        let mut i: usize = 0;
        while i < n
            invariant
                docs == core_docs(&self.core),
                synced == core_synced(&self.core),
                synced ==> complete,
                complete == (forall|j: int|
                    hits.1@.len() < query@.limit && 0 <= j < docs.len() && query_matches(
                        query@,
                        #[trigger] docs[j],
                    ) ==> doc_returned(&hits.0, hits.1@, docs[j])),
                no_filters == spec_no_filters(query@),
                n == hits.1@.len(),
                n <= query@.limit,
                i <= n,
                out@.len() <= i,
                forall|k: int|
                    0 <= k < hits.1@.len() ==> addr_in_snapshot(&hits.0, #[trigger] hits.1@[k]),
                synced ==> forall|k: int|
                    0 <= k < hits.1@.len() ==> hit_in_docs(&hits.0, #[trigger] hits.1@[k], docs),
                synced ==> forall|k: int|
                    0 <= k < out@.len() ==> result_from_docs(
                        query@,
                        (#[trigger] out@[k]).entry@,
                        docs,
                    ),
                no_filters ==> out@.len() == i && forall|k: int|
                    0 <= k < i ==> (#[trigger] out@[k]).entry@ == entry_of_doc(
                        addr_doc(&hits.0, hits.1@[k]),
                    ),
            decreases n - i,
        {
            let rec = match load_hit(&hits.0, hits.1[i]) {
                Ok(d) => d,
                Err(m) => {
                    return Err(NexusError::Search(m));
                },
            };
            let ghost recv = rec@;
            let keep = passes_filters(query, &rec);
            proof {
                if no_filters {
                    assert(spec_passes_filters(query@, recv));
                }
            }
            if keep {
                let entry = entry_from_doc(rec);
                out.push(SearchResult { entry, snippet: None });
                proof {
                    if synced {
                        assert(hit_in_docs(&hits.0, hits.1@[i as int], docs));
                        let j = choose|j: int|
                            0 <= j < docs.len() && addr_doc(&hits.0, hits.1@[i as int])
                                == #[trigger] docs[j];
                        assert(recv == docs[j]);
                        assert(out@[out@.len() - 1].entry@ == entry_of_doc(docs[j]));
                        assert(result_from_docs(query@, out@[out@.len() - 1].entry@, docs));
                    }
                }
            }
            i = i + 1;
        }
        proof {
            if synced && docs.len() == 0 && out@.len() > 0 {
                assert(result_from_docs(query@, out@[0].entry@, docs));
                assert(false);
            }
            if synced && no_filters && out@.len() < query@.limit {
                assert(hits.1@.len() < query@.limit);
                assert forall|j: int|
                    0 <= j < docs.len() && query_matches(
                        query@,
                        #[trigger] docs[j],
                    ) implies exists|i2: int|
                    0 <= i2 < out@.len() && (#[trigger] out@[i2]).entry@.path == docs[j].path by {
                    assert(doc_returned(&hits.0, hits.1@, docs[j]));
                    let k = choose|k: int|
                        0 <= k < hits.1@.len() && addr_doc(&hits.0, #[trigger] hits.1@[k])
                            == docs[j];
                    assert(out@[k].entry@ == entry_of_doc(addr_doc(&hits.0, hits.1@[k])));
                    assert(out@[k].entry@.path == docs[j].path);
                }
            }
        }
        Ok(out)
    }
}

/// After a committed batch, an exact query on the name of any batch
/// entry that returned every matching document returns at least one
/// result carrying that entry's path.
pub proof fn law_index_then_exact_search(
    docs0: Seq<DocView>,
    batch: Seq<EntryView>,
    docs1: Seq<DocView>,
    k: int,
    q: Seq<char>,
    paths: Seq<Seq<char>>,
)
    requires
        docs1 == docs0 + batch.map_values(|e: EntryView| doc_of_entry(e)),
        0 <= k < batch.len(),
        name_tokens(batch[k].name).contains(q),
        forall|j: int|
            0 <= j < docs1.len() && matches_exact(#[trigger] docs1[j], q) ==> exists|i: int|
                0 <= i < paths.len() && #[trigger] paths[i] == docs1[j].path,
    ensures
        exists|i: int| 0 <= i < paths.len() && #[trigger] paths[i] == batch[k].path,
{
    let j = docs0.len() + k;
    assert(docs1[j as int] == doc_of_entry(batch[k]));
    assert(matches_exact(docs1[j as int], q));
}

/// With the index emptied, any search that answers at all answers
/// with no results.
pub proof fn law_search_after_clear(docs: Seq<DocView>, rs: Seq<EntryView>)
    requires
        docs.len() == 0,
        forall|i: int|
            #![trigger rs[i]]
            0 <= i < rs.len() ==> exists|j: int| 0 <= j < docs.len() && rs[i] == entry_of_doc(
                docs[j],
            ),
    ensures
        rs.len() == 0,
{
    if rs.len() > 0 {
        assert(exists|j: int| 0 <= j < docs.len() && rs[0] == entry_of_doc(docs[j]));
        let j = choose|j: int| 0 <= j < docs.len() && rs[0] == entry_of_doc(docs[j]);
        assert(false);
    }
}

} // verus!
