//! What scanning a file amounts to: the counts that it adds to a result and
//! the events that it gives rise to.

use crate::comment::{
    contains_marker, extract, first_of, inside_after, last_of,
    lemma_no_markers_no_comment, lemma_no_markers_stay_outside, Extraction,
};
use crate::filetype::{FileType, Grammar};
use crate::lines::split_lines;
use crate::log_result::{
    lemma_merge_only_adds, lemma_merge_order, merge_results, no_keywords_found, nothing_counted,
    ResultView,
};
use crate::table::count_of;
use vstd::prelude::*;
use vstd::seq_lib::{to_multiset_contains, to_multiset_len, to_multiset_remove};
use vstd::utf8::encode_utf8;

verus! {

/// Whether `keyword` occurs in the comment text of a line. It counts
/// wherever its bytes stand, inside a longer word too.
pub open spec fn keyword_found(comment: Option<Seq<u8>>, keyword: Seq<char>) -> bool {
    match comment {
        Some(text) => contains_marker(text, encode_utf8(keyword)),
        None => false,
    }
}

/// `table` after a line with comment text `comment` was searched for
/// `keyword`: one more where the keyword occurs, however often it does.
pub open spec fn count_keyword(
    table: Map<Seq<char>, nat>,
    comment: Option<Seq<u8>>,
    keyword: Seq<char>,
) -> Map<Seq<char>, nat> {
    if keyword_found(comment, keyword) {
        table.insert(keyword, count_of(table, keyword) + 1)
    } else {
        table
    }
}

/// `table` after a line with comment text `comment` was searched for each
/// keyword in turn.
pub open spec fn count_keywords(table: Map<Seq<char>, nat>, comment: Option<Seq<u8>>) -> Map<
    Seq<char>,
    nat,
> {
    let after_todo = count_keyword(table, comment, "TODO"@);
    let after_hack = count_keyword(after_todo, comment, "HACK"@);
    let after_bug = count_keyword(after_hack, comment, "BUG"@);
    count_keyword(after_bug, comment, "FIXME"@)
}

/// `result` after one more line, whose comment text is `comment`.
pub open spec fn tally_line(result: ResultView, comment: Option<Seq<u8>>) -> ResultView {
    ResultView {
        line_count: result.line_count + 1,
        keywords: count_keywords(result.keywords, comment),
        filetypes: result.filetypes,
    }
}

/// `result` after the lines `lines` of one file, the first of which starts
/// outside a multiline comment.
pub open spec fn tally_lines(
    result: ResultView,
    lines: Seq<Seq<u8>>,
    grammar: Grammar,
) -> ResultView
    decreases lines.len(),
{
    if lines.len() == 0 {
        result
    } else {
        tally_line(
            tally_lines(result, lines.drop_last(), grammar),
            extract(lines.last(), grammar, inside_after(lines.drop_last(), grammar)).comment,
        )
    }
}

/// The result of scanning one file of the language `filetype` that holds
/// `bytes`: the file itself, counted once under its language, its lines, and
/// the keywords found in its comments.
pub open spec fn file_result(bytes: Seq<u8>, filetype: FileType) -> ResultView {
    tally_lines(
        ResultView {
            line_count: 0,
            keywords: no_keywords_found(),
            filetypes: Map::<Seq<char>, nat>::empty().insert(filetype.name(), 1),
        },
        split_lines(bytes),
        filetype.grammar(),
    )
}

/// Something that a scan wants reported.
pub enum EventView {
    /// `keyword` was found in the comment text of `line`.
    KeywordFound { keyword: Seq<char>, line: Seq<u8> },
    /// `line` holds a multiline start marker, a multiline end marker and an
    /// inline marker, and was taken as comment as a whole.
    ComplexComment { line: Seq<u8> },
}

/// The event of `keyword` in a line, if it was found there.
pub open spec fn keyword_event(line: Seq<u8>, comment: Option<Seq<u8>>, keyword: Seq<char>) -> Seq<
    EventView,
> {
    if keyword_found(comment, keyword) {
        seq![EventView::KeywordFound { keyword, line }]
    } else {
        Seq::empty()
    }
}

/// The events of the keywords found in a line, in the order in which the
/// keywords are tried; none unless `verbose`.
pub open spec fn keyword_events(line: Seq<u8>, comment: Option<Seq<u8>>, verbose: bool) -> Seq<
    EventView,
> {
    if verbose {
        keyword_event(line, comment, "TODO"@) + keyword_event(line, comment, "HACK"@)
            + keyword_event(line, comment, "BUG"@) + keyword_event(line, comment, "FIXME"@)
    } else {
        Seq::empty()
    }
}

/// The warning for a line that was taken whole as a fallback.
pub open spec fn fallback_event(line: Seq<u8>, extraction: Extraction) -> Seq<EventView> {
    if extraction.fallback {
        seq![EventView::ComplexComment { line }]
    } else {
        Seq::empty()
    }
}

/// The events of one line: a warning where the whole line was taken as a
/// fallback, then, if `verbose`, one event for each keyword found.
pub open spec fn line_events(line: Seq<u8>, extraction: Extraction, verbose: bool) -> Seq<
    EventView,
> {
    fallback_event(line, extraction) + keyword_events(line, extraction.comment, verbose)
}

/// The events of the lines `lines` of one file, in order.
pub open spec fn file_events(lines: Seq<Seq<u8>>, grammar: Grammar, verbose: bool) -> Seq<
    EventView,
>
    decreases lines.len(),
{
    if lines.len() == 0 {
        Seq::empty()
    } else {
        file_events(lines.drop_last(), grammar, verbose) + line_events(
            lines.last(),
            extract(lines.last(), grammar, inside_after(lines.drop_last(), grammar)),
            verbose,
        )
    }
}

/// The events of a line follow those that came before it: first the
/// warning, then the keywords. A line without comment text has none.
pub proof fn lemma_line_events(
    before: Seq<EventView>,
    line: Seq<u8>,
    extraction: Extraction,
    verbose: bool,
)
    ensures
        (before + fallback_event(line, extraction)) + keyword_events(
            line,
            extraction.comment,
            verbose,
        ) == before + line_events(line, extraction, verbose),
        extraction.comment is None && !extraction.fallback ==> before + line_events(
            line,
            extraction,
            verbose,
        ) == before,
{
    let warning = fallback_event(line, extraction);
    let finds = keyword_events(line, extraction.comment, verbose);
    assert((before + warning) + finds =~= before + (warning + finds));
    if extraction.comment is None && !extraction.fallback {
        assert(before + line_events(line, extraction, verbose) =~= before);
    }
}

/// No two of the keywords are the same.
pub proof fn lemma_key_comments_distinct()
    ensures
        "TODO"@ != "HACK"@,
        "TODO"@ != "BUG"@,
        "TODO"@ != "FIXME"@,
        "HACK"@ != "BUG"@,
        "HACK"@ != "FIXME"@,
        "BUG"@ != "FIXME"@,
{
    reveal_strlit("TODO");
    reveal_strlit("HACK");
    reveal_strlit("BUG");
    reveal_strlit("FIXME");
    assert("TODO"@[0] == 'T');
    assert("HACK"@[0] == 'H');
    assert("BUG"@[0] == 'B');
    assert("FIXME"@[0] == 'F');
}

/// Searching a line for one keyword leaves the count of every other name
/// as it was.
pub proof fn lemma_count_keyword_other(
    table: Map<Seq<char>, nat>,
    comment: Option<Seq<u8>>,
    keyword: Seq<char>,
    other: Seq<char>,
)
    requires
        keyword != other,
    ensures
        count_of(count_keyword(table, comment, keyword), other) == count_of(table, other),
{
}

/// While a line is searched for the keywords in turn, the count of a
/// keyword that has not had its turn is still what it was before the line.
pub proof fn lemma_keywords_in_turn(table: Map<Seq<char>, nat>, comment: Option<Seq<u8>>)
    ensures
        ({
            let after_todo = count_keyword(table, comment, "TODO"@);
            let after_hack = count_keyword(after_todo, comment, "HACK"@);
            let after_bug = count_keyword(after_hack, comment, "BUG"@);
            &&& count_of(after_todo, "HACK"@) == count_of(table, "HACK"@)
            &&& count_of(after_hack, "BUG"@) == count_of(table, "BUG"@)
            &&& count_of(after_bug, "FIXME"@) == count_of(table, "FIXME"@)
        }),
{
    lemma_key_comments_distinct();
    let after_todo = count_keyword(table, comment, "TODO"@);
    let after_hack = count_keyword(after_todo, comment, "HACK"@);
    lemma_count_keyword_other(table, comment, "TODO"@, "HACK"@);
    lemma_count_keyword_other(table, comment, "TODO"@, "BUG"@);
    lemma_count_keyword_other(after_todo, comment, "HACK"@, "BUG"@);
    lemma_count_keyword_other(table, comment, "TODO"@, "FIXME"@);
    lemma_count_keyword_other(after_todo, comment, "HACK"@, "FIXME"@);
    lemma_count_keyword_other(after_hack, comment, "BUG"@, "FIXME"@);
}

/// The events of the keywords of a line, noted one after the other behind
/// the events that came before, are the keyword events of the line.
pub proof fn lemma_keyword_events(
    before: Seq<EventView>,
    line: Seq<u8>,
    comment: Option<Seq<u8>>,
    verbose: bool,
)
    ensures
        before + keyword_events(line, comment, verbose) == (((before + if verbose {
            keyword_event(line, comment, "TODO"@)
        } else {
            Seq::empty()
        }) + if verbose {
            keyword_event(line, comment, "HACK"@)
        } else {
            Seq::empty()
        }) + if verbose {
            keyword_event(line, comment, "BUG"@)
        } else {
            Seq::empty()
        }) + if verbose {
            keyword_event(line, comment, "FIXME"@)
        } else {
            Seq::empty()
        },
{
    let none = Seq::<EventView>::empty();
    let todo = if verbose { keyword_event(line, comment, "TODO"@) } else { none };
    let hack = if verbose { keyword_event(line, comment, "HACK"@) } else { none };
    let bug = if verbose { keyword_event(line, comment, "BUG"@) } else { none };
    let fixme = if verbose { keyword_event(line, comment, "FIXME"@) } else { none };
    assert((((before + todo) + hack) + bug) + fixme =~= before + (((todo + hack) + bug) + fixme));
    if !verbose {
        assert(((none + none) + none) + none =~= none);
    }
}

/// Whether `name` is one of the keywords that are looked for.
pub open spec fn is_key_comment(name: Seq<char>) -> bool {
    name == "TODO"@ || name == "HACK"@ || name == "BUG"@ || name == "FIXME"@
}

/// What a line adds to the count of `name`: one if `name` is a keyword that
/// occurs in the comment text of the line, else nothing.
pub open spec fn line_adds(comment: Option<Seq<u8>>, name: Seq<char>) -> nat {
    if is_key_comment(name) && keyword_found(comment, name) {
        1
    } else {
        0
    }
}

/// After a line was searched, the count of every name is what it was plus
/// what the line adds to it; and a name has a count after the line exactly
/// if it had one before or is a keyword that the line holds.
pub proof fn lemma_count_keywords(
    table: Map<Seq<char>, nat>,
    comment: Option<Seq<u8>>,
    name: Seq<char>,
)
    ensures
        count_of(count_keywords(table, comment), name) == count_of(table, name) + line_adds(
            comment,
            name,
        ),
        count_keywords(table, comment).contains_key(name) <==> table.contains_key(name)
            || line_adds(comment, name) == 1,
{
    lemma_key_comments_distinct();
}

/// A line without comment text leaves every count as it was: the table has
/// the same names and the same count for each.
pub proof fn lemma_no_comment_no_count(table: Map<Seq<char>, nat>)
    ensures
        count_keywords(table, None) == table,
{
}

/// In a language without any comment marker, a line that starts outside a
/// multiline comment is counted as a line and changes nothing else: no
/// keyword count, no name in the keyword table, no event; and the next line
/// starts outside too.
pub proof fn lemma_no_markers_line(
    result: ResultView,
    line: Seq<u8>,
    grammar: Grammar,
    verbose: bool,
)
    requires
        grammar.inline is None,
        grammar.open is None,
        grammar.close is None,
    ensures
        !extract(line, grammar, false).inside,
        tally_line(result, extract(line, grammar, false).comment) == (ResultView {
            line_count: result.line_count + 1,
            ..result
        }),
        line_events(line, extract(line, grammar, false), verbose) == Seq::<EventView>::empty(),
{
    lemma_no_markers_no_comment(line, grammar);
    assert(line_events(line, extract(line, grammar, false), verbose) =~= Seq::<
        EventView,
    >::empty());
}

/// In a language without any comment marker, whole files are counted as
/// lines only: whatever they hold, no keyword is found and no event arises.
pub proof fn lemma_no_markers_lines(
    result: ResultView,
    lines: Seq<Seq<u8>>,
    grammar: Grammar,
    verbose: bool,
)
    requires
        grammar.inline is None,
        grammar.open is None,
        grammar.close is None,
    ensures
        tally_lines(result, lines, grammar) == (ResultView {
            line_count: result.line_count + lines.len(),
            ..result
        }),
        file_events(lines, grammar, verbose) == Seq::<EventView>::empty(),
    decreases lines.len(),
{
    if lines.len() > 0 {
        lemma_no_markers_lines(result, lines.drop_last(), grammar, verbose);
        lemma_no_markers_stay_outside(lines.drop_last(), grammar);
        lemma_no_markers_line(
            tally_lines(result, lines.drop_last(), grammar),
            lines.last(),
            grammar,
            verbose,
        );
        assert(file_events(lines, grammar, verbose) =~= Seq::<EventView>::empty());
    }
}

/// A file of a language without any comment marker is counted under its
/// language, with one line for each of its lines; no keyword is found in it
/// and no event arises from it, whatever it holds.
pub proof fn lemma_no_markers_file(bytes: Seq<u8>, filetype: FileType, verbose: bool)
    requires
        filetype.grammar().inline is None,
        filetype.grammar().open is None,
        filetype.grammar().close is None,
    ensures
        file_result(bytes, filetype) == (ResultView {
            line_count: split_lines(bytes).len(),
            keywords: no_keywords_found(),
            filetypes: Map::<Seq<char>, nat>::empty().insert(filetype.name(), 1),
        }),
        file_events(split_lines(bytes), filetype.grammar(), verbose) == Seq::<EventView>::empty(),
{
    lemma_no_markers_lines(
        ResultView {
            line_count: 0,
            keywords: no_keywords_found(),
            filetypes: Map::<Seq<char>, nat>::empty().insert(filetype.name(), 1),
        },
        split_lines(bytes),
        filetype.grammar(),
        verbose,
    );
}

/// Inside a multiline comment, a line that is not empty and holds no end
/// marker is comment as a whole and leaves the comment open: each keyword
/// that occurs anywhere in the line is counted once, and no other count
/// changes.
pub proof fn lemma_line_inside_comment(
    result: ResultView,
    line: Seq<u8>,
    grammar: Grammar,
    name: Seq<char>,
)
    requires
        line.len() > 0,
        last_of(line, grammar.close) is None,
    ensures
        extract(line, grammar, true).inside,
        extract(line, grammar, true).comment == Some(line),
        !extract(line, grammar, true).fallback,
        tally_line(result, extract(line, grammar, true).comment).line_count == result.line_count
            + 1,
        count_of(tally_line(result, extract(line, grammar, true).comment).keywords, name)
            == count_of(result.keywords, name) + line_adds(Some(line), name),
{
    lemma_count_keywords(result.keywords, Some(line), name);
}

/// Inside a multiline comment, a line that holds an end marker and no
/// inline marker closes the comment: the text before the last end marker is
/// comment, each keyword that occurs in that text is counted once, what
/// follows the end marker is not searched, and the next line starts outside.
pub proof fn lemma_line_closes_comment(
    result: ResultView,
    line: Seq<u8>,
    grammar: Grammar,
    name: Seq<char>,
)
    requires
        line.len() > 0,
        last_of(line, grammar.close) is Some,
        first_of(line, grammar.inline) is None,
    ensures
        !extract(line, grammar, true).inside,
        extract(line, grammar, true).comment == Some(line.take(last_of(line, grammar.close)->0)),
        !extract(line, grammar, true).fallback,
        tally_line(result, extract(line, grammar, true).comment).line_count == result.line_count
            + 1,
        count_of(tally_line(result, extract(line, grammar, true).comment).keywords, name)
            == count_of(result.keywords, name) + line_adds(
            Some(line.take(last_of(line, grammar.close)->0)),
            name,
        ),
{
    lemma_count_keywords(
        result.keywords,
        Some(line.take(last_of(line, grammar.close)->0)),
        name,
    );
}

/// One line adds at most one to the count of any name, and changes nothing
/// but the line count if it has no comment.
pub proof fn lemma_tally_line(result: ResultView, comment: Option<Seq<u8>>, name: Seq<char>)
    ensures
        count_of(result.keywords, name) <= count_of(tally_line(result, comment).keywords, name)
            <= count_of(result.keywords, name) + 1,
        comment is None ==> tally_line(result, comment).keywords == result.keywords,
{
    lemma_key_comments_distinct();
}

/// Scanning lines counts every line once, finds no keyword more often than
/// there are lines, and leaves the language counts as they were.
pub proof fn lemma_tally_lines(
    result: ResultView,
    lines: Seq<Seq<u8>>,
    grammar: Grammar,
    name: Seq<char>,
)
    ensures
        tally_lines(result, lines, grammar).line_count == result.line_count + lines.len(),
        tally_lines(result, lines, grammar).filetypes == result.filetypes,
        count_of(result.keywords, name) <= count_of(
            tally_lines(result, lines, grammar).keywords,
            name,
        ) <= count_of(result.keywords, name) + lines.len(),
    decreases lines.len(),
{
    if lines.len() > 0 {
        lemma_tally_lines(result, lines.drop_last(), grammar, name);
        lemma_tally_line(
            tally_lines(result, lines.drop_last(), grammar),
            extract(lines.last(), grammar, inside_after(lines.drop_last(), grammar)).comment,
            name,
        );
    }
}

/// The result of a file counts the file once under its language, has one
/// line for each line of the file, and no keyword more often than it has
/// lines.
pub proof fn lemma_file_result(bytes: Seq<u8>, filetype: FileType, name: Seq<char>)
    ensures
        file_result(bytes, filetype).line_count == split_lines(bytes).len(),
        file_result(bytes, filetype).filetypes == Map::<Seq<char>, nat>::empty().insert(
            filetype.name(),
            1,
        ),
        count_of(file_result(bytes, filetype).keywords, name) <= file_result(
            bytes,
            filetype,
        ).line_count,
{
    let start = ResultView {
        line_count: 0,
        keywords: no_keywords_found(),
        filetypes: Map::<Seq<char>, nat>::empty().insert(filetype.name(), 1),
    };
    lemma_tally_lines(start, split_lines(bytes), filetype.grammar(), name);
}

/// An empty file has no lines and no keywords: its result is that of a
/// scan that has read nothing but counted the file under its language.
pub proof fn lemma_empty_file(filetype: FileType)
    ensures
        file_result(Seq::<u8>::empty(), filetype) == (ResultView {
            line_count: 0,
            keywords: no_keywords_found(),
            filetypes: Map::<Seq<char>, nat>::empty().insert(filetype.name(), 1),
        }),
{
}

/// A file that a scan has read: its language and what it holds.
pub struct ScannedFile {
    /// The language of the file.
    pub filetype: FileType<'static>,
    /// The bytes of the file.
    pub bytes: Seq<u8>,
}

/// The result of a scan whose workers have handed in the results of `files`
/// one after the other.
pub open spec fn scan_result(files: Seq<ScannedFile>) -> ResultView
    decreases files.len(),
{
    if files.len() == 0 {
        nothing_counted()
    } else {
        merge_results(
            scan_result(files.drop_last()),
            file_result(files.last().bytes, files.last().filetype),
        )
    }
}

/// The result of a scan is what it is without one of its files, with the
/// result of that file added.
pub proof fn lemma_scan_without(files: Seq<ScannedFile>, i: int)
    requires
        0 <= i < files.len(),
    ensures
        scan_result(files) == merge_results(
            scan_result(files.remove(i)),
            file_result(files[i].bytes, files[i].filetype),
        ),
    decreases files.len(),
{
    if i == files.len() - 1 {
        assert(files.remove(i) =~= files.drop_last());
    } else {
        let front = files.drop_last();
        let last = files.last();
        lemma_scan_without(front, i);
        assert(files.remove(i).drop_last() =~= front.remove(i));
        assert(files.remove(i).last() == last);
        lemma_merge_order(
            scan_result(front.remove(i)),
            file_result(files[i].bytes, files[i].filetype),
            file_result(last.bytes, last.filetype),
        );
    }
}

/// The result of a scan does not depend on the order in which the results
/// of its files come in. Two scans of the same files give the same result:
/// a second scan of an unchanged tree, or a scan with another number of
/// workers, which hand in the same files in another order.
pub proof fn lemma_scan_order(first: Seq<ScannedFile>, second: Seq<ScannedFile>)
    requires
        first.to_multiset() == second.to_multiset(),
    ensures
        scan_result(first) == scan_result(second),
    decreases first.len(),
{
    to_multiset_len(first);
    to_multiset_len(second);
    if first.len() > 0 {
        let file = first.last();
        let k = first.len() - 1;
        assert(first[k] == file);
        assert(first.contains(file));
        to_multiset_contains(first, file);
        to_multiset_contains(second, file);
        let j = second.index_of(file);
        assert(0 <= j < second.len() && second[j] == file);
        to_multiset_remove(first, k);
        to_multiset_remove(second, j);
        assert(first.remove(k) =~= first.drop_last());
        lemma_scan_order(first.drop_last(), second.remove(j));
        lemma_scan_without(second, j);
    }
}

/// Whatever a scan has read, it has found no keyword more often than it has
/// counted lines, and it has counted as many lines as its files have.
pub proof fn lemma_scan_counts(files: Seq<ScannedFile>, name: Seq<char>)
    ensures
        count_of(scan_result(files).keywords, name) <= scan_result(files).line_count,
        files.len() == 0 ==> scan_result(files).line_count == 0,
        files.len() > 0 ==> scan_result(files).line_count == scan_result(
            files.drop_last(),
        ).line_count + split_lines(files.last().bytes).len(),
    decreases files.len(),
{
    if files.len() > 0 {
        let file = files.last();
        lemma_scan_counts(files.drop_last(), name);
        lemma_file_result(file.bytes, file.filetype, name);
        lemma_merge_only_adds(
            scan_result(files.drop_last()),
            file_result(file.bytes, file.filetype),
            name,
        );
    }
}

} // verus!
