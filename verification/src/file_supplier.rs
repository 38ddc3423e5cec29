//! Aggregation of per-file statistics: global totals, an ignored-file
//! counter, and per-language subtotals.  A batch of per-file outcomes is
//! folded into one `ExtractInfo`; every failed file only bumps the
//! ignored counter and never disturbs the rest of the batch.

use vstd::prelude::*;

use crate::file_handler::FileHandler;
use crate::file_handler::FileStats;
use crate::file_handler::FileStatsV;
use crate::file_handler::lemma_file_stats_bounds;
use crate::file_handler::spec_file_stat;
use crate::languages_mapping::extension_is_ignored;
use crate::languages_mapping::is_ignored_extension;
use crate::text::ext_of;
use crate::text::extension_of;
use crate::text::str_eq;

verus! {

/// Mathematical shape of one language's subtotals.
pub struct StatPerLanguageV {
    pub language: Seq<char>,
    pub number_of_files: int,
    pub total_size: int,
    pub tot_lines: int,
    pub tot_blank_lines: int,
    pub tot_comment_lines: int,
    pub tot_code_lines: int,
}

/// Subtotals of every classified file of one language.
pub struct StatPerLanguage {
    pub language: String,
    pub number_of_files: usize,
    pub total_size: usize,
    pub tot_lines: usize,
    pub tot_blank_lines: usize,
    pub tot_comment_lines: usize,
    pub tot_code_lines: usize,
}

impl View for StatPerLanguage {
    type V = StatPerLanguageV;

    open spec fn view(&self) -> StatPerLanguageV {
        StatPerLanguageV {
            language: self.language@,
            number_of_files: self.number_of_files as int,
            total_size: self.total_size as int,
            tot_lines: self.tot_lines as int,
            tot_blank_lines: self.tot_blank_lines as int,
            tot_comment_lines: self.tot_comment_lines as int,
            tot_code_lines: self.tot_code_lines as int,
        }
    }
}

impl DeepView for StatPerLanguage {
    type V = StatPerLanguageV;

    open spec fn deep_view(&self) -> StatPerLanguageV {
        self.view()
    }
}

/// The subtotals opened for the first file of a language.
pub open spec fn new_per_language(st: FileStatsV) -> StatPerLanguageV {
    StatPerLanguageV {
        language: st.language,
        number_of_files: 1,
        total_size: st.size,
        tot_lines: st.lines,
        tot_blank_lines: st.blank_lines,
        tot_comment_lines: st.comment_lines,
        tot_code_lines: st.code_lines,
    }
}

/// One more file of a language folded into its subtotals.
pub open spec fn merged_stat(e: StatPerLanguageV, st: FileStatsV) -> StatPerLanguageV {
    StatPerLanguageV {
        language: e.language,
        number_of_files: e.number_of_files + 1,
        total_size: e.total_size + st.size,
        tot_lines: e.tot_lines + st.lines,
        tot_blank_lines: e.tot_blank_lines + st.blank_lines,
        tot_comment_lines: e.tot_comment_lines + st.comment_lines,
        tot_code_lines: e.tot_code_lines + st.code_lines,
    }
}

/// One file's statistics folded into the per-language list: the first
/// entry of the file's language absorbs them, and a language not yet
/// listed is appended at the end.
pub open spec fn spec_add_stat(list: Seq<StatPerLanguageV>, st: FileStatsV) -> Seq<
    StatPerLanguageV,
>
    decreases list.len(),
{
    if list.len() == 0 {
        seq![new_per_language(st)]
    } else if list[0].language == st.language {
        seq![merged_stat(list[0], st)] + list.skip(1)
    } else {
        seq![list[0]] + spec_add_stat(list.skip(1), st)
    }
}

/// When entry `i` is the first of the file's language, folding updates
/// exactly that entry.
proof fn lemma_add_stat_found(list: Seq<StatPerLanguageV>, st: FileStatsV, i: int)
    requires
        0 <= i < list.len(),
        list[i].language == st.language,
        forall|j: int| 0 <= j < i ==> list[j].language != st.language,
    ensures
        spec_add_stat(list, st) == list.update(i, merged_stat(list[i], st)),
    decreases list.len(),
{
    if i == 0 {
        assert(seq![merged_stat(list[0], st)] + list.skip(1) =~= list.update(
            0,
            merged_stat(list[0], st),
        ));
    } else {
        lemma_add_stat_found(list.skip(1), st, i - 1);
        assert(seq![list[0]] + list.skip(1).update(i - 1, merged_stat(list.skip(1)[i - 1], st))
            =~= list.update(i, merged_stat(list[i], st)));
    }
}

/// When no entry has the file's language, folding appends a fresh entry.
proof fn lemma_add_stat_none(list: Seq<StatPerLanguageV>, st: FileStatsV)
    requires
        forall|j: int| 0 <= j < list.len() ==> list[j].language != st.language,
    ensures
        spec_add_stat(list, st) == list.push(new_per_language(st)),
    decreases list.len(),
{
    if list.len() == 0 {
        assert(seq![new_per_language(st)] =~= list.push(new_per_language(st)));
    } else {
        lemma_add_stat_none(list.skip(1), st);
        assert(seq![list[0]] + list.skip(1).push(new_per_language(st)) =~= list.push(
            new_per_language(st),
        ));
    }
}

impl StatPerLanguage {
    /// Subtotals for the first classified file of a language.
    pub fn new(
        language: String,
        size: usize,
        lines: usize,
        blank_lines: usize,
        comment_lines: usize,
        code_lines: usize,
    ) -> (r: StatPerLanguage)
        ensures
            r@ == (StatPerLanguageV {
                language: language@,
                number_of_files: 1,
                total_size: size as int,
                tot_lines: lines as int,
                tot_blank_lines: blank_lines as int,
                tot_comment_lines: comment_lines as int,
                tot_code_lines: code_lines as int,
            }),
    {
        StatPerLanguage {
            language,
            number_of_files: 1,
            total_size: size,
            tot_lines: lines,
            tot_blank_lines: blank_lines,
            tot_comment_lines: comment_lines,
            tot_code_lines: code_lines,
        }
    }

    /// Counts one more file of this language.
    fn add_number_of_files(&mut self)
        requires
            old(self)@.number_of_files + 1 <= usize::MAX,
        ensures
            final(self)@ == (StatPerLanguageV {
                number_of_files: old(self)@.number_of_files + 1,
                ..old(self)@
            }),
    {
        self.number_of_files = self.number_of_files + 1;
    }

    /// Adds to this language's byte size.
    fn add_total_size(&mut self, size: usize)
        requires
            old(self)@.total_size + size <= usize::MAX,
        ensures
            final(self)@ == (StatPerLanguageV {
                total_size: old(self)@.total_size + size,
                ..old(self)@
            }),
    {
        self.total_size = self.total_size + size;
    }

    /// Adds to this language's total line count.
    fn add_tot_lines(&mut self, lines: usize)
        requires
            old(self)@.tot_lines + lines <= usize::MAX,
        ensures
            final(self)@ == (StatPerLanguageV { tot_lines: old(self)@.tot_lines + lines, ..old(
                self,
            )@ }),
    {
        self.tot_lines = self.tot_lines + lines;
    }

    /// Adds to this language's blank-line count.
    fn add_tot_blank_lines(&mut self, lines: usize)
        requires
            old(self)@.tot_blank_lines + lines <= usize::MAX,
        ensures
            final(self)@ == (StatPerLanguageV {
                tot_blank_lines: old(self)@.tot_blank_lines + lines,
                ..old(self)@
            }),
    {
        self.tot_blank_lines = self.tot_blank_lines + lines;
    }

    /// Adds to this language's comment-line count.
    fn add_tot_comment_lines(&mut self, lines: usize)
        requires
            old(self)@.tot_comment_lines + lines <= usize::MAX,
        ensures
            final(self)@ == (StatPerLanguageV {
                tot_comment_lines: old(self)@.tot_comment_lines + lines,
                ..old(self)@
            }),
    {
        self.tot_comment_lines = self.tot_comment_lines + lines;
    }

    /// Adds to this language's code-line count.
    fn add_tot_code_lines(&mut self, lines: usize)
        requires
            old(self)@.tot_code_lines + lines <= usize::MAX,
        ensures
            final(self)@ == (StatPerLanguageV {
                tot_code_lines: old(self)@.tot_code_lines + lines,
                ..old(self)@
            }),
    {
        self.tot_code_lines = self.tot_code_lines + lines;
    }
}

/// Mathematical shape of the aggregate.
pub struct ExtractInfoV {
    pub number_of_files: int,
    pub number_of_files_ignore: int,
    pub number_of_directories: int,
    pub total_size: int,
    pub tot_lines: int,
    pub tot_blank_lines: int,
    pub tot_comment_lines: int,
    pub tot_code_lines: int,
    pub stats_per_language: Seq<StatPerLanguageV>,
}

/// The aggregate over a batch of files: global counters and the
/// per-language subtotals.
pub struct ExtractInfo {
    pub number_of_files: usize,
    pub number_of_files_ignore: usize,
    pub number_of_directories: usize,
    pub total_size: usize,
    pub tot_lines: usize,
    pub tot_blank_lines: usize,
    pub tot_comment_lines: usize,
    pub tot_code_lines: usize,
    pub stats_per_language: Vec<StatPerLanguage>,
}

impl View for ExtractInfo {
    type V = ExtractInfoV;

    open spec fn view(&self) -> ExtractInfoV {
        ExtractInfoV {
            number_of_files: self.number_of_files as int,
            number_of_files_ignore: self.number_of_files_ignore as int,
            number_of_directories: self.number_of_directories as int,
            total_size: self.total_size as int,
            tot_lines: self.tot_lines as int,
            tot_blank_lines: self.tot_blank_lines as int,
            tot_comment_lines: self.tot_comment_lines as int,
            tot_code_lines: self.tot_code_lines as int,
            stats_per_language: self.stats_per_language.deep_view(),
        }
    }
}

impl ExtractInfo {
    /// An empty aggregate.
    pub fn new() -> (r: ExtractInfo)
        ensures
            r@ == (ExtractInfoV {
                number_of_files: 0,
                number_of_files_ignore: 0,
                number_of_directories: 0,
                total_size: 0,
                tot_lines: 0,
                tot_blank_lines: 0,
                tot_comment_lines: 0,
                tot_code_lines: 0,
                stats_per_language: Seq::empty(),
            }),
    {
        let r = ExtractInfo {
            number_of_files: 0,
            number_of_files_ignore: 0,
            number_of_directories: 0,
            total_size: 0,
            tot_lines: 0,
            tot_blank_lines: 0,
            tot_comment_lines: 0,
            tot_code_lines: 0,
            stats_per_language: Vec::new(),
        };
        proof {
            assert(r.stats_per_language.deep_view() =~= Seq::<StatPerLanguageV>::empty());
        }
        r
    }

    /// Counts one successfully classified file.
    pub fn add_number_of_files(&mut self)
        requires
            old(self)@.number_of_files + 1 <= usize::MAX,
        ensures
            final(self)@ == (ExtractInfoV {
                number_of_files: old(self)@.number_of_files + 1,
                ..old(self)@
            }),
    {
        self.number_of_files = self.number_of_files + 1;
    }

    /// Counts one ignored file (unreadable, binary, or of an ignored
    /// extension).
    pub fn add_number_of_files_ignore(&mut self)
        requires
            old(self)@.number_of_files_ignore + 1 <= usize::MAX,
        ensures
            final(self)@ == (ExtractInfoV {
                number_of_files_ignore: old(self)@.number_of_files_ignore + 1,
                ..old(self)@
            }),
    {
        self.number_of_files_ignore = self.number_of_files_ignore + 1;
    }

    /// Counts one traversed directory.
    pub fn add_number_of_directories(&mut self)
        requires
            old(self)@.number_of_directories + 1 <= usize::MAX,
        ensures
            final(self)@ == (ExtractInfoV {
                number_of_directories: old(self)@.number_of_directories + 1,
                ..old(self)@
            }),
    {
        self.number_of_directories = self.number_of_directories + 1;
    }

    /// Adds to the total byte size.
    pub fn add_total_size(&mut self, size: usize)
        requires
            old(self)@.total_size + size <= usize::MAX,
        ensures
            final(self)@ == (ExtractInfoV { total_size: old(self)@.total_size + size, ..old(
                self,
            )@ }),
    {
        self.total_size = self.total_size + size;
    }

    /// Adds to the total line count.
    pub fn add_tot_lines(&mut self, lines: usize)
        requires
            old(self)@.tot_lines + lines <= usize::MAX,
        ensures
            final(self)@ == (ExtractInfoV { tot_lines: old(self)@.tot_lines + lines, ..old(
                self,
            )@ }),
    {
        self.tot_lines = self.tot_lines + lines;
    }

    /// Adds to the total blank-line count.
    pub fn add_tot_blank_lines(&mut self, lines: usize)
        requires
            old(self)@.tot_blank_lines + lines <= usize::MAX,
        ensures
            final(self)@ == (ExtractInfoV {
                tot_blank_lines: old(self)@.tot_blank_lines + lines,
                ..old(self)@
            }),
    {
        self.tot_blank_lines = self.tot_blank_lines + lines;
    }

    /// Adds to the total comment-line count.
    pub fn add_tot_comment_lines(&mut self, lines: usize)
        requires
            old(self)@.tot_comment_lines + lines <= usize::MAX,
        ensures
            final(self)@ == (ExtractInfoV {
                tot_comment_lines: old(self)@.tot_comment_lines + lines,
                ..old(self)@
            }),
    {
        self.tot_comment_lines = self.tot_comment_lines + lines;
    }

    /// Adds to the total code-line count.
    pub fn add_tot_code_lines(&mut self, lines: usize)
        requires
            old(self)@.tot_code_lines + lines <= usize::MAX,
        ensures
            final(self)@ == (ExtractInfoV {
                tot_code_lines: old(self)@.tot_code_lines + lines,
                ..old(self)@
            }),
    {
        self.tot_code_lines = self.tot_code_lines + lines;
    }

    /// Folds one file's statistics into the per-language subtotals: the
    /// first entry of the file's language absorbs them, and a language not
    /// yet listed gains a fresh entry at the end.
    pub fn add_stat_for_each_language(&mut self, stats: &FileStats)
        requires
            forall|j: int|
                0 <= j < old(self)@.stats_per_language.len() && old(
                    self,
                )@.stats_per_language[j].language == stats@.language ==> {
                    let e = old(self)@.stats_per_language[j];
                    &&& e.number_of_files + 1 <= usize::MAX
                    &&& e.total_size + stats@.size <= usize::MAX
                    &&& e.tot_lines + stats@.lines <= usize::MAX
                    &&& e.tot_blank_lines + stats@.blank_lines <= usize::MAX
                    &&& e.tot_comment_lines + stats@.comment_lines <= usize::MAX
                    &&& e.tot_code_lines + stats@.code_lines <= usize::MAX
                },
        ensures
            final(self)@ == (ExtractInfoV {
                stats_per_language: spec_add_stat(old(self)@.stats_per_language, stats@),
                ..old(self)@
            }),
    {
        let n = self.stats_per_language.len();
        let mut i: usize = 0;
        while i < n
            invariant
                self@ == old(self)@,
                n == self.stats_per_language@.len(),
                0 <= i <= n,
                forall|j: int|
                    0 <= j < i ==> self.stats_per_language.deep_view()[j].language
                        != stats@.language,
                forall|j: int|
                    0 <= j < old(self)@.stats_per_language.len() && old(
                        self,
                    )@.stats_per_language[j].language == stats@.language ==> {
                        let e = old(self)@.stats_per_language[j];
                        &&& e.number_of_files + 1 <= usize::MAX
                        &&& e.total_size + stats@.size <= usize::MAX
                        &&& e.tot_lines + stats@.lines <= usize::MAX
                        &&& e.tot_blank_lines + stats@.blank_lines <= usize::MAX
                        &&& e.tot_comment_lines + stats@.comment_lines <= usize::MAX
                        &&& e.tot_code_lines + stats@.code_lines <= usize::MAX
                    },
            decreases n - i,
        {
            let found = str_eq(self.stats_per_language[i].language.as_str(), stats.get_language());
            if found {
                let ghost old_list = self.stats_per_language.deep_view();
                proof {
                    assert(old_list[i as int].language == stats@.language);
                    assert(old_list == old(self)@.stats_per_language);
                }
                let mut entry = self.stats_per_language.remove(i);
                proof {
                    assert(entry@ == old_list[i as int]);
                }
                entry.add_number_of_files();
                entry.add_total_size(stats.get_size());
                entry.add_tot_lines(stats.get_lines());
                entry.add_tot_blank_lines(stats.get_blank_lines());
                entry.add_tot_comment_lines(stats.get_comment_lines());
                entry.add_tot_code_lines(stats.get_code_lines());
                proof {
                    assert(entry@ == merged_stat(old_list[i as int], stats@));
                }
                self.stats_per_language.insert(i, entry);
                proof {
                    lemma_add_stat_found(old_list, stats@, i as int);
                    assert(self.stats_per_language.deep_view() =~= old_list.update(
                        i as int,
                        merged_stat(old_list[i as int], stats@),
                    ));
                }
                return ;
            }
            i += 1;
        }
        let ghost old_list = self.stats_per_language.deep_view();
        let fresh = StatPerLanguage::new(
            stats.get_language().to_owned(),
            stats.get_size(),
            stats.get_lines(),
            stats.get_blank_lines(),
            stats.get_comment_lines(),
            stats.get_code_lines(),
        );
        proof {
            assert(fresh@ == new_per_language(stats@));
        }
        self.stats_per_language.push(fresh);
        proof {
            lemma_add_stat_none(old_list, stats@);
            assert(self.stats_per_language.deep_view() =~= old_list.push(new_per_language(stats@)));
        }
    }

    /// Decides one argument: a readable text file whose extension is not
    /// on the ignore-list is classified; anything else is rejected with a
    /// message naming the argument.  The caller reads the file and passes
    /// its decoded text, or nothing when the path is not a readable text
    /// file.
    pub fn get_argument(&self, arg: &str, content: Option<&str>) -> (r: Result<FileStats, String>)
        ensures
            (match r {
                Ok(st) => content matches Some(c) && !is_ignored_extension(ext_of(arg@)) && st@
                    == spec_file_stat(arg@, c),
                Err(e) => (content is None || is_ignored_extension(ext_of(arg@))) && e@ == arg@
                    + " is not a file or is binary"@,
            }),
    {
        match content {
            Some(c) => {
                let ext = extension_of(arg);
                if extension_is_ignored(ext.as_str()) {
                    Err(arg.to_owned().concat(" is not a file or is binary"))
                } else {
                    let file = FileHandler::new(arg);
                    Ok(file.get_file_stat(c))
                }
            },
            None => Err(arg.to_owned().concat(" is not a file or is binary")),
        }
    }
}

} // verus!
