//! The scan coordinator: the queue of files that wait to be read, the flag
//! that says that no more will come, and the result that the workers add
//! to.
//!
//! The coordinator decides; it reads no file and starts no thread. A worker
//! asks it for the next step, reads the file that it is handed, has the
//! bytes scanned, and hands the report back. The walk over the directories
//! hands it one listing after the other.

use crate::comment::{contains, extract, extract_comment, inside_after};
use crate::filetype::{language_of_parts, FileKey, FileType};
use crate::lines::{lemma_first_break_bounds, split_lines, LineSource};
use crate::log_result::{
    merge_results, no_keywords_found, nothing_counted, results_fit, LogResult, ResultView,
};
use crate::platform::{
    available_cores, extension_text, file_name_text, path_extension, path_file_name,
};
use crate::scan::{
    count_keyword, count_keywords, file_events, file_result, keyword_event, keyword_events,
    lemma_keyword_events, lemma_keywords_in_turn, lemma_line_events, lemma_tally_line,
    line_events, tally_line, tally_lines, EventView,
};
use crate::table::count_of;
use std::collections::VecDeque;
use std::path::Path;
use std::path::PathBuf;
use vstd::prelude::*;
use vstd::slice::slice_to_vec;

verus! {

/// Something that a scan wants reported.
#[derive(Debug, PartialEq, Eq)]
pub enum ScanEvent {
    /// `keyword` was found in the comment text of `line`.
    KeywordFound { keyword: &'static str, line: Vec<u8> },
    /// `line` holds a multiline start marker, a multiline end marker and an
    /// inline marker, and was taken as comment as a whole.
    ComplexComment { line: Vec<u8> },
}

impl View for ScanEvent {
    type V = EventView;

    open spec fn view(&self) -> EventView {
        match *self {
            ScanEvent::KeywordFound { keyword, line } => EventView::KeywordFound {
                keyword: keyword@,
                line: line@,
            },
            ScanEvent::ComplexComment { line } => EventView::ComplexComment { line: line@ },
        }
    }
}

/// The views of `events`, in order.
pub open spec fn event_views(events: Seq<ScanEvent>) -> Seq<EventView> {
    Seq::new(events.len(), |i: int| events[i]@)
}

/// What scanning one file gave.
pub struct FileReport {
    /// The counts of the file.
    pub result: LogResult,
    /// The events of the file, in the order of its lines.
    pub events: Vec<ScanEvent>,
}

/// An entry of a directory listing.
pub struct TreeEntry {
    /// Where the entry is.
    pub path: PathBuf,
    /// Whether it is a directory.
    pub is_dir: bool,
}

/// The paths of the entries of `entries` that are no directories, in order.
pub open spec fn files_of(entries: Seq<TreeEntry>) -> Seq<PathBuf>
    decreases entries.len(),
{
    if entries.len() == 0 {
        Seq::empty()
    } else if entries.last().is_dir {
        files_of(entries.drop_last())
    } else {
        files_of(entries.drop_last()).push(entries.last().path)
    }
}

/// The paths of the entries of `entries` that are directories, in order.
pub open spec fn directories_of(entries: Seq<TreeEntry>) -> Seq<PathBuf>
    decreases entries.len(),
{
    if entries.len() == 0 {
        Seq::empty()
    } else if entries.last().is_dir {
        directories_of(entries.drop_last()).push(entries.last().path)
    } else {
        directories_of(entries.drop_last())
    }
}

/// What a worker does next.
#[derive(Debug, PartialEq, Eq)]
pub enum WorkerStep {
    /// Read this file, scan it, and hand in the report.
    Parse(PathBuf),
    /// The queue is empty but more files may come: ask again.
    Retry,
    /// The queue is empty and no more files will come: stop.
    Done,
}

/// Why a scan could not start.
#[derive(Clone, Copy, Debug, PartialEq, Eq)]
pub enum LogError {
    /// The number of processor cores could not be found out.
    UnknownCoreCount,
}

impl LogError {
    /// The message that goes with the error.
    pub fn message(&self) -> (text: &'static str)
        ensures
            text@ == "ERROR: Could not properly deduce number of cpu cores!"@,
    {
        "ERROR: Could not properly deduce number of cpu cores!"
    }
}

/// The state of a scan.
pub struct Logger {
    data: VecDeque<PathBuf>,
    finish_flag: bool,
    result: LogResult,
    root_directory: PathBuf,
    verbose: bool,
}

impl Logger {
    /// The files that wait to be read, the next one first.
    pub closed spec fn queue(&self) -> Seq<PathBuf> {
        self.data@
    }

    /// Whether the walk over the directories has ended, so that no more
    /// files will be queued.
    pub closed spec fn finished(&self) -> bool {
        self.finish_flag
    }

    /// The counts so far.
    pub closed spec fn totals(&self) -> ResultView {
        self.result@
    }

    /// Where the scan starts.
    pub closed spec fn root(&self) -> PathBuf {
        self.root_directory
    }

    /// Whether every keyword found is to be reported.
    pub closed spec fn is_verbose(&self) -> bool {
        self.verbose
    }

    /// Whether `other` is this state but for the queue.
    pub open spec fn same_but_queue(&self, other: &Logger) -> bool {
        &&& self.finished() == other.finished()
        &&& self.totals() == other.totals()
        &&& self.root() == other.root()
        &&& self.is_verbose() == other.is_verbose()
    }

    /// Whether `other` is this state but for the counts.
    pub open spec fn same_but_totals(&self, other: &Logger) -> bool {
        &&& self.queue() == other.queue()
        &&& self.finished() == other.finished()
        &&& self.root() == other.root()
        &&& self.is_verbose() == other.is_verbose()
    }

    /// The state of a scan of `directory` that has not begun: nothing is
    /// queued, nothing is counted, and the walk has not ended.
    pub fn new(directory: PathBuf, verbose_printing: bool) -> (logger: Self)
        ensures
            logger.queue() == Seq::<PathBuf>::empty(),
            !logger.finished(),
            logger.totals() == nothing_counted(),
            logger.root() == directory,
            logger.is_verbose() == verbose_printing,
    {
        Logger {
            data: VecDeque::new(),
            finish_flag: false,
            result: LogResult::new(),
            root_directory: directory,
            verbose: verbose_printing,
        }
    }

    /// Where the scan starts.
    pub fn root_directory(&self) -> (directory: &PathBuf)
        ensures
            *directory == self.root(),
    {
        &self.root_directory
    }

    /// Whether every keyword found is to be reported.
    pub fn verbose(&self) -> (verbose: bool)
        ensures
            verbose == self.is_verbose(),
    {
        self.verbose
    }

    /// The counts so far.
    pub fn result(&self) -> (result: &LogResult)
        ensures
            result@ == self.totals(),
    {
        &self.result
    }

    /// Counts one more find of `keyword`.
    pub fn increment_keyword(&mut self, keyword: &str)
        requires
            count_of(old(self).totals().keywords, keyword@) < usize::MAX,
        ensures
            final(self).same_but_totals(old(self)),
            final(self).totals() == (ResultView {
                keywords: old(self).totals().keywords.insert(
                    keyword@,
                    count_of(old(self).totals().keywords, keyword@) + 1,
                ),
                ..old(self).totals()
            }),
    {
        self.result.increment_keyword(keyword);
    }

    /// Counts one more file of the language `filetype`.
    pub fn increment_filetype_frequency(&mut self, filetype: &FileType)
        requires
            count_of(old(self).totals().filetypes, filetype.name()) < usize::MAX,
        ensures
            final(self).same_but_totals(old(self)),
            final(self).totals() == (ResultView {
                filetypes: old(self).totals().filetypes.insert(
                    filetype.name(),
                    count_of(old(self).totals().filetypes, filetype.name()) + 1,
                ),
                ..old(self).totals()
            }),
    {
        self.result.increment_filetype_frequency(filetype);
    }

    /// The language of `file`: that of its extension where it has one, else
    /// that of its name, and `None` where the table of languages holds
    /// neither. The standard library says what the extension and the name of
    /// a path are.
    pub fn classify_file(file: &Path) -> (filetype: Option<FileType<'static>>)
        ensures
            filetype == language_of_parts(extension_text(file), file_name_text(file)),
    {
        let extension = path_extension(file);
        let file_name = match extension {
            Some(_) => None,
            None => path_file_name(file),
        };
        let key = FileKey::of(extension, file_name);
        key.classify()
    }

    /// Counts the keyword `keyword` for a line whose comment text is
    /// `comment`, and notes the find if `verbose`.
    fn tally_keyword(
        line: &[u8],
        comment: &[u8],
        keyword: &'static str,
        verbose: bool,
        report: &mut FileReport,
    )
        requires
            count_of(old(report).result@.keywords, keyword@) < usize::MAX,
        ensures
            final(report).result@ == (ResultView {
                keywords: count_keyword(old(report).result@.keywords, Some(comment@), keyword@),
                ..old(report).result@
            }),
            event_views(final(report).events@) == event_views(old(report).events@) + if verbose {
                keyword_event(line@, Some(comment@), keyword@)
            } else {
                Seq::empty()
            },
    {
        if contains(comment, keyword.as_bytes()) {
            report.result.increment_keyword(keyword);
            if verbose {
                report.events.push(ScanEvent::KeywordFound { keyword, line: slice_to_vec(line) });
                assert(event_views(report.events@) =~= event_views(old(report).events@)
                    + keyword_event(line@, Some(comment@), keyword@));
            } else {
                assert(event_views(report.events@) =~= event_views(old(report).events@)
                    + Seq::<EventView>::empty());
            }
        } else {
            assert(event_views(report.events@) =~= event_views(old(report).events@)
                + Seq::<EventView>::empty());
        }
    }

    /// Counts each keyword that occurs in `comment`, the comment text of
    /// `line`, once, and notes the finds if `verbose`.
    fn tally_keywords(line: &[u8], comment: &[u8], verbose: bool, report: &mut FileReport)
        requires
            count_of(old(report).result@.keywords, "TODO"@) < usize::MAX,
            count_of(old(report).result@.keywords, "HACK"@) < usize::MAX,
            count_of(old(report).result@.keywords, "BUG"@) < usize::MAX,
            count_of(old(report).result@.keywords, "FIXME"@) < usize::MAX,
        ensures
            final(report).result@ == (ResultView {
                keywords: count_keywords(old(report).result@.keywords, Some(comment@)),
                ..old(report).result@
            }),
            event_views(final(report).events@) == event_views(old(report).events@)
                + keyword_events(line@, Some(comment@), verbose),
    {
        let ghost events = event_views(report.events@);
        let ghost table = report.result@.keywords;
        proof {
            lemma_keywords_in_turn(table, Some(comment@));
        }
        Self::tally_keyword(line, comment, "TODO", verbose, report);
        Self::tally_keyword(line, comment, "HACK", verbose, report);
        Self::tally_keyword(line, comment, "BUG", verbose, report);
        Self::tally_keyword(line, comment, "FIXME", verbose, report);
        proof {
            lemma_keyword_events(events, line@, Some(comment@), verbose);
        }
    }

    /// Notes `line` in the events of `report` if it was taken whole as a
    /// fallback.
    fn note_fallback(line: &[u8], fallback: bool, report: &mut FileReport)
        ensures
            final(report).result@ == old(report).result@,
            event_views(final(report).events@) == event_views(old(report).events@) + if fallback {
                seq![EventView::ComplexComment { line: line@ }]
            } else {
                Seq::empty()
            },
    {
        if fallback {
            report.events.push(ScanEvent::ComplexComment { line: slice_to_vec(line) });
        }
        assert(event_views(report.events@) =~= event_views(old(report).events@) + if fallback {
            seq![EventView::ComplexComment { line: line@ }]
        } else {
            Seq::empty()
        });
    }

    /// Processes one line of a file of the language `filetype`: counts the
    /// line, extracts its comment text, and counts each keyword that occurs in
    /// it once. `in_multiline_comment` says whether the line starts inside a
    /// multiline comment, and is set to whether the next line does. A line
    /// that was taken whole as a fallback is noted in the events of `report`,
    /// and so is every keyword found if `verbose`.
    pub fn process_line(
        line: &[u8],
        filetype: &FileType,
        in_multiline_comment: &mut bool,
        verbose: bool,
        report: &mut FileReport,
    )
        requires
            old(report).result@.line_count < usize::MAX,
            count_of(old(report).result@.keywords, "TODO"@) < usize::MAX,
            count_of(old(report).result@.keywords, "HACK"@) < usize::MAX,
            count_of(old(report).result@.keywords, "BUG"@) < usize::MAX,
            count_of(old(report).result@.keywords, "FIXME"@) < usize::MAX,
        ensures
            *final(in_multiline_comment) == extract(
                line@,
                filetype.grammar(),
                *old(in_multiline_comment),
            ).inside,
            final(report).result@ == tally_line(
                old(report).result@,
                extract(line@, filetype.grammar(), *old(in_multiline_comment)).comment,
            ),
            event_views(final(report).events@) == event_views(old(report).events@) + line_events(
                line@,
                extract(line@, filetype.grammar(), *old(in_multiline_comment)),
                verbose,
            ),
    {
        let ghost extraction = extract(line@, filetype.grammar(), *old(in_multiline_comment));
        let ghost events = event_views(report.events@);
        let slice = extract_comment(line, filetype, in_multiline_comment);
        report.result.increment_line_count();
        match slice {
            Some(found) => {
                Self::note_fallback(line, found.fallback, report);
                Self::tally_keywords(line, found.text.as_slice(), verbose, report);
                proof {
                    lemma_line_events(events, line@, extraction, verbose);
                }
            },
            None => {
                proof {
                    lemma_line_events(events, line@, extraction, verbose);
                }
            },
        }
    }

    /// Scans a file of the language `filetype` that holds `bytes`: counts the
    /// file under its language, splits the bytes into lines, and processes
    /// the lines in order, the first one outside any comment.
    pub fn parse_file(bytes: &[u8], filetype: &FileType, verbose: bool) -> (report: FileReport)
        ensures
            report.result@ == file_result(bytes@, *filetype),
            event_views(report.events@) == file_events(
                split_lines(bytes@),
                filetype.grammar(),
                verbose,
            ),
    {
        let mut report = FileReport { result: LogResult::new(), events: Vec::new() };
        report.result.increment_filetype_frequency(filetype);
        let ghost start = report.result@;
        let ghost grammar = filetype.grammar();
        let size = bytes.len();
        let mut source = LineSource::new(bytes);
        let mut in_multiline_comment = false;
        let ghost mut done: Seq<Seq<u8>> = Seq::empty();
        assert(event_views(report.events@) =~= file_events(done, grammar, verbose));
        loop
            invariant
                source.buffer() == bytes@,
                grammar == filetype.grammar(),
                split_lines(bytes@) == done + split_lines(source.remaining()),
                done.len() <= source.position() <= bytes@.len() == size,
                in_multiline_comment == inside_after(done, grammar),
                report.result@ == tally_lines(start, done, grammar),
                report.result@.line_count == done.len(),
                forall|name: Seq<char>|
                    count_of(#[trigger] report.result@.keywords, name) <= done.len(),
                event_views(report.events@) == file_events(done, grammar, verbose),
                start == (ResultView {
                    line_count: 0,
                    keywords: no_keywords_found(),
                    filetypes: Map::<Seq<char>, nat>::empty().insert(filetype.name(), 1),
                }),
            decreases bytes@.len() - source.position(),
        {
            let ghost rest = source.remaining();
            let ghost before = report.result@;
            let ghost at = source.position();
            match source.next_line() {
                None => {
                    assert(done + Seq::<Seq<u8>>::empty() =~= done);
                    return report;
                },
                Some(line) => {
                    proof {
                        lemma_first_break_bounds(rest);
                        assert(done.len() <= at < source.position());
                        assert(count_of(before.keywords, "TODO"@) <= done.len());
                        assert(count_of(before.keywords, "HACK"@) <= done.len());
                        assert(count_of(before.keywords, "BUG"@) <= done.len());
                        assert(count_of(before.keywords, "FIXME"@) <= done.len());
                    }
                    Self::process_line(
                        line.as_slice(),
                        filetype,
                        &mut in_multiline_comment,
                        verbose,
                        &mut report,
                    );
                    proof {
                        let longer = done.push(line@);
                        assert(longer.drop_last() =~= done);
                        assert(longer.last() == line@);
                        assert(done + (seq![line@] + split_lines(source.remaining())) =~= longer
                            + split_lines(source.remaining()));
                        assert forall|name: Seq<char>|
                            count_of(#[trigger] report.result@.keywords, name)
                                <= longer.len() by {
                            lemma_tally_line(
                                before,
                                extract(line@, grammar, inside_after(done, grammar)).comment,
                                name,
                            );
                            assert(count_of(before.keywords, name) <= done.len());
                        }
                        done = longer;
                    }
                },
            }
        }
    }

    /// Whether the counts of `report` can be added to the result without any
    /// counter running over.
    pub fn can_record(&self, report: &FileReport) -> (ok: bool)
        ensures
            ok == results_fit(self.totals(), report.result@),
    {
        self.result.can_merge(&report.result)
    }

    /// Adds the counts of one file to the result.
    pub fn record(&mut self, report: &FileReport)
        requires
            results_fit(old(self).totals(), report.result@),
        ensures
            final(self).same_but_totals(old(self)),
            final(self).totals() == merge_results(old(self).totals(), report.result@),
    {
        self.result.merge(&report.result);
    }

    /// The next step of a worker. A file that waits is taken from the front
    /// of the queue and handed out, to this worker and to no other. With an
    /// empty queue the worker is told to stop if the walk has ended, and to
    /// ask again if it has not.
    pub fn waiting_room(&mut self) -> (step: WorkerStep)
        ensures
            final(self).same_but_queue(old(self)),
            old(self).queue().len() > 0 ==> step == WorkerStep::Parse(old(self).queue()[0])
                && final(self).queue() == old(self).queue().drop_first(),
            old(self).queue().len() == 0 ==> final(self).queue() == old(self).queue() && step == (
            if old(self).finished() {
                WorkerStep::Done
            } else {
                WorkerStep::Retry
            }),
    {
        let entry = self.data.pop_front();
        match entry {
            None => {
                if self.finish_flag {
                    WorkerStep::Done
                } else {
                    WorkerStep::Retry
                }
            },
            Some(found_file) => {
                assert(self.data@ =~= old(self).data@.drop_first());
                WorkerStep::Parse(found_file)
            },
        }
    }

    /// Takes in the listing of one directory: every entry that is no
    /// directory is queued, in order, behind what is queued already, and the
    /// directories are handed back, in order, to be listed in turn. A scan
    /// that starts at a single file hands in that file as the only entry.
    pub fn populate_queue(&mut self, entries: Vec<TreeEntry>) -> (directories: Vec<PathBuf>)
        ensures
            final(self).same_but_queue(old(self)),
            final(self).queue() == old(self).queue() + files_of(entries@),
            directories@ == directories_of(entries@),
    {
        let mut directories: Vec<PathBuf> = Vec::new();
        let ghost all = entries@;
        assert(self.data@ =~= old(self).data@ + files_of(all.take(0)));
        for entry in listing: entries
            invariant
                listing.seq() == all,
                self.data@ == old(self).data@ + files_of(all.take(listing.index() as int)),
                directories@ == directories_of(all.take(listing.index() as int)),
                self.same_but_queue(old(self)),
        {
            proof {
                let seen = all.take(listing.index() + 1);
                assert(seen.drop_last() =~= all.take(listing.index() as int));
                assert(seen.last() == entry);
            }
            if entry.is_dir {
                directories.push(entry.path);
            } else {
                self.data.push_back(entry.path);
                assert(self.data@ =~= old(self).data@ + files_of(all.take(listing.index() + 1)));
            }
        }
        assert(all.take(all.len() as int) =~= all);
        directories
    }

    /// Notes that the walk over the directories has ended: no more files
    /// will be queued. Once said, it stays said.
    pub fn finish(&mut self)
        ensures
            final(self).finished(),
            final(self).queue() == old(self).queue(),
            final(self).totals() == old(self).totals(),
            final(self).root() == old(self).root(),
            final(self).is_verbose() == old(self).is_verbose(),
    {
        self.finish_flag = true;
    }

    /// The number of workers for a machine with `cores` processor cores: one
    /// for each core. A count of zero means that the cores could not be
    /// counted, and is an error.
    pub fn pool_size(cores: usize) -> (workers: Result<usize, LogError>)
        ensures
            cores > 0 ==> workers == Ok::<usize, LogError>(cores),
            cores == 0 ==> workers == Err::<usize, LogError>(LogError::UnknownCoreCount),
    {
        if cores == 0 {
            Err(LogError::UnknownCoreCount)
        } else {
            Ok(cores)
        }
    }

    /// The number of workers for this machine: one for each processor core
    /// that the platform reports, and an error where it reports none.
    pub fn worker_count() -> (workers: Result<usize, LogError>)
        ensures
            match workers {
                Ok(count) => count > 0,
                Err(error) => error == LogError::UnknownCoreCount,
            },
    {
        Self::pool_size(available_cores())
    }
}

} // verus!
