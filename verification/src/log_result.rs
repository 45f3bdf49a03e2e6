//! The running result of a scan: lines processed, how often each keyword
//! was found, and how many files of each language were read.

use crate::filetype::FileType;
use crate::table::{count_of, merge_tables, tables_fit, CountTable};
use vstd::prelude::*;

verus! {

/// What a result holds.
pub struct ResultView {
    /// The number of lines processed.
    pub line_count: nat,
    /// How often each keyword was found.
    pub keywords: Map<Seq<char>, nat>,
    /// How many files of each language were read, by the language's name.
    pub filetypes: Map<Seq<char>, nat>,
}

/// The keyword table of a result that has counted nothing: every keyword at
/// zero.
pub open spec fn no_keywords_found() -> Map<Seq<char>, nat> {
    Map::<Seq<char>, nat>::empty().insert("TODO"@, 0).insert("HACK"@, 0).insert("BUG"@, 0).insert(
        "FIXME"@,
        0,
    )
}

/// The result of a scan that has read nothing: no lines, every keyword at
/// zero, no language.
pub open spec fn nothing_counted() -> ResultView {
    ResultView { line_count: 0, keywords: no_keywords_found(), filetypes: Map::empty() }
}

/// The sum of two results.
pub open spec fn merge_results(a: ResultView, b: ResultView) -> ResultView {
    ResultView {
        line_count: a.line_count + b.line_count,
        keywords: merge_tables(a.keywords, b.keywords),
        filetypes: merge_tables(a.filetypes, b.filetypes),
    }
}

/// Whether the sum of two results fits the counters of a result.
pub open spec fn results_fit(a: ResultView, b: ResultView) -> bool {
    &&& a.line_count + b.line_count <= usize::MAX
    &&& tables_fit(a.keywords, b.keywords)
    &&& tables_fit(a.filetypes, b.filetypes)
}

/// The sum of two tables does not depend on their order.
pub proof fn lemma_merge_tables_commutes(a: Map<Seq<char>, nat>, b: Map<Seq<char>, nat>)
    ensures
        merge_tables(a, b) == merge_tables(b, a),
{
    assert(merge_tables(a, b) =~= merge_tables(b, a));
}

/// Adding three tables gives the same whichever two are added first.
pub proof fn lemma_merge_tables_associates(
    a: Map<Seq<char>, nat>,
    b: Map<Seq<char>, nat>,
    c: Map<Seq<char>, nat>,
)
    ensures
        merge_tables(merge_tables(a, b), c) == merge_tables(a, merge_tables(b, c)),
{
    assert(merge_tables(merge_tables(a, b), c) =~= merge_tables(a, merge_tables(b, c)));
}

/// The order in which the results of two files are added to a result makes
/// no difference: however the files are dealt out to workers, and in
/// whatever order the workers finish, the totals are the same.
pub proof fn lemma_merge_order(total: ResultView, a: ResultView, b: ResultView)
    ensures
        merge_results(merge_results(total, a), b) == merge_results(merge_results(total, b), a),
        merge_results(a, b) == merge_results(b, a),
        merge_results(merge_results(total, a), b) == merge_results(total, merge_results(a, b)),
{
    lemma_merge_tables_commutes(a.keywords, b.keywords);
    lemma_merge_tables_commutes(a.filetypes, b.filetypes);
    lemma_merge_tables_associates(total.keywords, a.keywords, b.keywords);
    lemma_merge_tables_associates(total.filetypes, a.filetypes, b.filetypes);
    lemma_merge_tables_associates(total.keywords, b.keywords, a.keywords);
    lemma_merge_tables_associates(total.filetypes, b.filetypes, a.filetypes);
}

/// Adding a result takes nothing away: no count of the sum is below the
/// count that either result had.
pub proof fn lemma_merge_only_adds(a: ResultView, b: ResultView, name: Seq<char>)
    ensures
        merge_results(a, b).line_count >= a.line_count,
        count_of(merge_results(a, b).keywords, name) == count_of(a.keywords, name) + count_of(
            b.keywords,
            name,
        ),
        count_of(merge_results(a, b).filetypes, name) == count_of(a.filetypes, name) + count_of(
            b.filetypes,
            name,
        ),
{
}

/// The counters of a scan.
pub struct LogResult {
    line_count: usize,
    keyword_table: CountTable,
    filetype_table: CountTable,
}

impl View for LogResult {
    type V = ResultView;

    closed spec fn view(&self) -> ResultView {
        ResultView {
            line_count: self.line_count as nat,
            keywords: self.keyword_table@,
            filetypes: self.filetype_table@,
        }
    }
}

impl LogResult {
    /// The keywords that are looked for in comments.
    pub const KEY_COMMENTS: [&'static str; 4] = ["TODO", "HACK", "BUG", "FIXME"];

    /// A result that has counted nothing. Its keyword table holds every
    /// keyword at zero, its language table is empty.
    pub fn new() -> (result: Self)
        ensures
            result@ == nothing_counted(),
    {
        let mut comment_table = CountTable::new();
        comment_table.add("TODO", 0);
        comment_table.add("HACK", 0);
        comment_table.add("BUG", 0);
        comment_table.add("FIXME", 0);
        LogResult { line_count: 0, keyword_table: comment_table, filetype_table: CountTable::new() }
    }

    /// Counts one more line.
    pub fn increment_line_count(&mut self)
        requires
            old(self)@.line_count < usize::MAX,
        ensures
            final(self)@ == (ResultView { line_count: old(self)@.line_count + 1, ..old(self)@ }),
    {
        self.line_count += 1;
    }

    /// Counts one more find of `keyword`. A keyword that the table does not
    /// hold yet is added with a count of one.
    pub fn increment_keyword(&mut self, keyword: &str)
        requires
            count_of(old(self)@.keywords, keyword@) < usize::MAX,
        ensures
            final(self)@ == (ResultView {
                keywords: old(self)@.keywords.insert(
                    keyword@,
                    count_of(old(self)@.keywords, keyword@) + 1,
                ),
                ..old(self)@
            }),
    {
        self.keyword_table.add(keyword, 1);
    }

    /// Counts one more file of the language `filetype`, under its name.
    pub fn increment_filetype_frequency(&mut self, filetype: &FileType)
        requires
            count_of(old(self)@.filetypes, filetype.name()) < usize::MAX,
        ensures
            final(self)@ == (ResultView {
                filetypes: old(self)@.filetypes.insert(
                    filetype.name(),
                    count_of(old(self)@.filetypes, filetype.name()) + 1,
                ),
                ..old(self)@
            }),
    {
        let name = filetype.stringify();
        self.filetype_table.add(name, 1);
    }

    /// The number of lines processed.
    pub fn line_count(&self) -> (count: usize)
        ensures
            count == self@.line_count,
    {
        self.line_count
    }

    /// The count of each keyword.
    pub fn keyword_table(&self) -> (table: &CountTable)
        ensures
            table@ == self@.keywords,
    {
        &self.keyword_table
    }

    /// The number of files of each language, by the language's name.
    pub fn filetype_table(&self) -> (table: &CountTable)
        ensures
            table@ == self@.filetypes,
    {
        &self.filetype_table
    }

    /// Whether `other` can be added to this result without any counter
    /// running over.
    pub fn can_merge(&self, other: &LogResult) -> (ok: bool)
        ensures
            ok == results_fit(self@, other@),
    {
        other.line_count <= usize::MAX - self.line_count && self.keyword_table.fits(
            &other.keyword_table,
        ) && self.filetype_table.fits(&other.filetype_table)
    }

    /// Adds the counts of `other` to this result.
    pub fn merge(&mut self, other: &LogResult)
        requires
            results_fit(old(self)@, other@),
        ensures
            final(self)@ == merge_results(old(self)@, other@),
    {
        self.line_count += other.line_count;
        self.keyword_table.merge(&other.keyword_table);
        self.filetype_table.merge(&other.filetype_table);
    }
}

} // verus!
