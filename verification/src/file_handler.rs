//! Per-file work: the line classification engine and the per-file pattern
//! search.  A `FileHandler` carries one file's path; the file's decoded
//! text is handed in by the caller, which is responsible for reading it
//! and for excluding binary files.

use vstd::prelude::*;
use vstd::string::StringSliceAdditionalSpecFns;

use crate::languages_mapping::Language;
use crate::languages_mapping::LanguageV;
use crate::languages_mapping::lang_wf;
use crate::languages_mapping::language_for_extension;
use crate::languages_mapping::lemma_recognized_language_wf;
use crate::languages_mapping::spec_language_for_extension;
use crate::text::blank_line;
use crate::text::contains_pattern;
use crate::text::contains_seq;
use crate::text::ext_of;
use crate::text::extension_of;
use crate::text::leading_ws_match;
use crate::text::is_line_blank;
use crate::text::spec_lines;
use crate::text::split_lines;
use crate::text::starts_after_ws;
use crate::text::trim_spec;
use crate::text::trim_str;

verus! {

/// Mathematical shape of one file's statistics.
pub struct FileStatsV {
    pub language: Seq<char>,
    pub size: int,
    pub lines: int,
    pub blank_lines: int,
    pub comment_lines: int,
    pub code_lines: int,
}

/// How one line is classified.
pub enum LineClass {
    Blank,
    Comment,
    Code,
}

/// The class of a line under a language profile, given whether a block
/// comment is open when the line starts.  Inside a block comment every
/// line counts as comment, the terminating line included; otherwise the
/// tests are applied in priority order: blank, single-line comment,
/// block-comment opener, code.
pub open spec fn classify_line(l: Seq<char>, lang: LanguageV, in_block: bool) -> LineClass {
    if in_block {
        LineClass::Comment
    } else if blank_line(l) {
        LineClass::Blank
    } else if leading_ws_match(l, lang.single_line_comment) {
        LineClass::Comment
    } else if lang.block_line_comment_begin matches Some(b) && contains_seq(l, b) {
        LineClass::Comment
    } else {
        LineClass::Code
    }
}

/// Whether a block comment is open after the line: a line holding the end
/// marker closes it, and a non-blank, non-single-comment line holding the
/// begin marker opens it.
pub open spec fn next_in_block(l: Seq<char>, lang: LanguageV, in_block: bool) -> bool {
    if in_block {
        !(lang.block_line_comment_end matches Some(e) && contains_seq(l, e))
    } else {
        &&& !blank_line(l)
        &&& !leading_ws_match(l, lang.single_line_comment)
        &&& (lang.block_line_comment_begin matches Some(b) && contains_seq(l, b))
    }
}

/// Running state of the per-file scan: the three counters and whether a
/// block comment is open.
pub struct ScanState {
    pub blank: int,
    pub comment: int,
    pub code: int,
    pub in_block: bool,
}

/// One step of the scan: classify the line, bump exactly one counter,
/// update the block-comment state.
pub open spec fn scan_step(st: ScanState, l: Seq<char>, lang: LanguageV) -> ScanState {
    let cls = classify_line(l, lang, st.in_block);
    ScanState {
        blank: st.blank + if cls is Blank {
            1int
        } else {
            0int
        },
        comment: st.comment + if cls is Comment {
            1int
        } else {
            0int
        },
        code: st.code + if cls is Code {
            1int
        } else {
            0int
        },
        in_block: next_in_block(l, lang, st.in_block),
    }
}

/// The scan of a whole file: all counters start at zero and no block
/// comment is open.
pub open spec fn scan_lines(lines: Seq<Seq<char>>, lang: LanguageV) -> ScanState
    decreases lines.len(),
{
    if lines.len() == 0 {
        ScanState { blank: 0, comment: 0, code: 0, in_block: false }
    } else {
        scan_step(scan_lines(lines.drop_last(), lang), lines.last(), lang)
    }
}

/// Every line bumps exactly one of the three counters, so they always sum
/// to the number of lines scanned.
pub proof fn lemma_scan_sum(lines: Seq<Seq<char>>, lang: LanguageV)
    ensures
        scan_lines(lines, lang).blank + scan_lines(lines, lang).comment + scan_lines(
            lines,
            lang,
        ).code == lines.len(),
        scan_lines(lines, lang).blank >= 0,
        scan_lines(lines, lang).comment >= 0,
        scan_lines(lines, lang).code >= 0,
    decreases lines.len(),
{
    if lines.len() > 0 {
        lemma_scan_sum(lines.drop_last(), lang);
    }
}

/// Blank-line count of a file in an unrecognized language, where every
/// line is blank or code.
pub open spec fn count_blank(lines: Seq<Seq<char>>) -> int
    decreases lines.len(),
{
    if lines.len() == 0 {
        0
    } else {
        count_blank(lines.drop_last()) + if blank_line(lines.last()) {
            1int
        } else {
            0int
        }
    }
}

/// The blank count never exceeds the line count.
pub proof fn lemma_count_blank_le(lines: Seq<Seq<char>>)
    ensures
        0 <= count_blank(lines) <= lines.len(),
    decreases lines.len(),
{
    if lines.len() > 0 {
        lemma_count_blank_le(lines.drop_last());
    }
}

/// The statistics of one file's content under an optional language
/// profile: counts come from the line scan (or from the blank-or-code
/// split when no language is recognized), the size is the content's byte
/// length, and the language name defaults to `Unknown`.
pub open spec fn spec_classification(lang: Option<LanguageV>, content: &str) -> FileStatsV {
    let lines = spec_lines(content@);
    match lang {
        Some(l) => {
            let st = scan_lines(lines, l);
            FileStatsV {
                language: l.name,
                size: content.len() as int,
                lines: lines.len() as int,
                blank_lines: st.blank,
                comment_lines: st.comment,
                code_lines: st.code,
            }
        },
        None => FileStatsV {
            language: "Unknown"@,
            size: content.len() as int,
            lines: lines.len() as int,
            blank_lines: count_blank(lines),
            comment_lines: 0,
            code_lines: lines.len() - count_blank(lines),
        },
    }
}

/// The statistics of one file, whose language is recognized from the
/// path's extension.
pub open spec fn spec_file_stat(path: Seq<char>, content: &str) -> FileStatsV {
    spec_classification(spec_language_for_extension(ext_of(path)), content)
}

/// Blank, comment and code lines of a classification always sum to its
/// total line count.
pub proof fn lemma_classification_sum(lang: Option<LanguageV>, content: &str)
    ensures
        spec_classification(lang, content).blank_lines + spec_classification(
            lang,
            content,
        ).comment_lines + spec_classification(lang, content).code_lines == spec_classification(
            lang,
            content,
        ).lines,
{
    match lang {
        Some(l) => lemma_scan_sum(spec_lines(content@), l),
        None => lemma_count_blank_le(spec_lines(content@)),
    }
}

/// Per-file counters: the language identifier, the byte size and the
/// blank, comment, code and total line counts, accumulated while one file
/// is scanned.
pub struct FileStats {
    language: String,
    size: usize,
    lines: usize,
    blank_lines: usize,
    comment_lines: usize,
    code_lines: usize,
}

impl View for FileStats {
    type V = FileStatsV;

    closed spec fn view(&self) -> FileStatsV {
        FileStatsV {
            language: self.language@,
            size: self.size as int,
            lines: self.lines as int,
            blank_lines: self.blank_lines as int,
            comment_lines: self.comment_lines as int,
            code_lines: self.code_lines as int,
        }
    }
}

impl FileStats {
    /// Fresh statistics: all counters zero, language `Unknown`.
    pub fn new() -> (r: FileStats)
        ensures
            r@ == (FileStatsV {
                language: "Unknown"@,
                size: 0,
                lines: 0,
                blank_lines: 0,
                comment_lines: 0,
                code_lines: 0,
            }),
    {
        FileStats {
            language: String::from_str("Unknown"),
            size: 0,
            lines: 0,
            blank_lines: 0,
            comment_lines: 0,
            code_lines: 0,
        }
    }

    /// Records the language identifier.
    pub fn add_language(&mut self, language: &str)
        ensures
            final(self)@ == (FileStatsV { language: language@, ..old(self)@ }),
    {
        self.language = language.to_owned();
    }

    /// Adds to the byte size.
    pub fn add_size(&mut self, size: usize)
        requires
            old(self)@.size + size <= usize::MAX,
        ensures
            final(self)@ == (FileStatsV { size: old(self)@.size + size, ..old(self)@ }),
    {
        self.size = self.size + size;
    }

    /// Adds to the total line count.
    pub fn add_lines_tot(&mut self, lines: usize)
        requires
            old(self)@.lines + lines <= usize::MAX,
        ensures
            final(self)@ == (FileStatsV { lines: old(self)@.lines + lines, ..old(self)@ }),
    {
        self.lines = self.lines + lines;
    }

    /// Adds to the blank-line count.
    pub fn add_blank_lines_tot(&mut self, blank_lines: usize)
        requires
            old(self)@.blank_lines + blank_lines <= usize::MAX,
        ensures
            final(self)@ == (FileStatsV {
                blank_lines: old(self)@.blank_lines + blank_lines,
                ..old(self)@
            }),
    {
        self.blank_lines = self.blank_lines + blank_lines;
    }

    /// Adds to the comment-line count.
    pub fn add_comment_lines_tot(&mut self, comment_lines: usize)
        requires
            old(self)@.comment_lines + comment_lines <= usize::MAX,
        ensures
            final(self)@ == (FileStatsV {
                comment_lines: old(self)@.comment_lines + comment_lines,
                ..old(self)@
            }),
    {
        self.comment_lines = self.comment_lines + comment_lines;
    }

    /// Adds to the code-line count.
    pub fn add_code_lines_tot(&mut self, code_lines: usize)
        requires
            old(self)@.code_lines + code_lines <= usize::MAX,
        ensures
            final(self)@ == (FileStatsV {
                code_lines: old(self)@.code_lines + code_lines,
                ..old(self)@
            }),
    {
        self.code_lines = self.code_lines + code_lines;
    }

    /// The language identifier.
    pub fn get_language(&self) -> (r: &str)
        ensures
            r@ == self@.language,
    {
        self.language.as_str()
    }

    /// The byte size.
    pub fn get_size(&self) -> (r: usize)
        ensures
            r == self@.size,
    {
        self.size
    }

    /// The total line count.
    pub fn get_lines(&self) -> (r: usize)
        ensures
            r == self@.lines,
    {
        self.lines
    }

    /// The blank-line count.
    pub fn get_blank_lines(&self) -> (r: usize)
        ensures
            r == self@.blank_lines,
    {
        self.blank_lines
    }

    /// The comment-line count.
    pub fn get_comment_lines(&self) -> (r: usize)
        ensures
            r == self@.comment_lines,
    {
        self.comment_lines
    }

    /// The code-line count.
    pub fn get_code_lines(&self) -> (r: usize)
        ensures
            r == self@.code_lines,
    {
        self.code_lines
    }
}

/// All counters of a `FileStats` value are machine integers, so their
/// views are bounded.
pub proof fn lemma_file_stats_bounds(st: &FileStats)
    ensures
        0 <= st@.size <= usize::MAX,
        0 <= st@.lines <= usize::MAX,
        0 <= st@.blank_lines <= usize::MAX,
        0 <= st@.comment_lines <= usize::MAX,
        0 <= st@.code_lines <= usize::MAX,
{
}

/// The matches of a pattern over a file's lines: for every line holding
/// the pattern, its 1-based number and its trimmed text, in file order.
pub open spec fn matches_of(lines: Seq<Seq<char>>, pat: Seq<char>) -> Seq<(u32, Seq<char>)>
    decreases lines.len(),
{
    if lines.len() == 0 {
        Seq::empty()
    } else {
        let prev = matches_of(lines.drop_last(), pat);
        if contains_seq(lines.last(), pat) {
            prev.push((lines.len() as u32, trim_spec(lines.last())))
        } else {
            prev
        }
    }
}

/// The search is exhaustive, order-preserving and free of duplicates: the
/// entries carry strictly increasing 1-based line numbers, every entry
/// names a line that holds the pattern and carries that line's trimmed
/// text, and every line that holds the pattern is named by some entry.
pub proof fn lemma_matches_exhaustive_ordered(lines: Seq<Seq<char>>, pat: Seq<char>)
    requires
        lines.len() <= u32::MAX,
    ensures
        forall|k: int|
            0 <= k < matches_of(lines, pat).len() ==> {
                let e = #[trigger] matches_of(lines, pat)[k];
                &&& 1 <= e.0 as int <= lines.len()
                &&& contains_seq(lines[e.0 as int - 1], pat)
                &&& e.1 == trim_spec(lines[e.0 as int - 1])
            },
        forall|k1: int, k2: int|
            0 <= k1 < k2 < matches_of(lines, pat).len() ==> (
            #[trigger] matches_of(lines, pat)[k1].0 as int) < (#[trigger] matches_of(
                lines,
                pat,
            )[k2].0 as int),
        forall|n: int|
            1 <= n <= lines.len() && contains_seq(#[trigger] lines[n - 1], pat) ==> exists|k: int|
                0 <= k < matches_of(lines, pat).len() && (#[trigger] matches_of(
                    lines,
                    pat,
                )[k].0 as int) == n,
    decreases lines.len(),
{
    if lines.len() > 0 {
        lemma_matches_exhaustive_ordered(lines.drop_last(), pat);
        let prev = matches_of(lines.drop_last(), pat);
        let ms = matches_of(lines, pat);
        assert(forall|j: int| 0 <= j < lines.len() - 1 ==> lines.drop_last()[j] == lines[j]);
        if contains_seq(lines.last(), pat) {
            assert(ms == prev.push((lines.len() as u32, trim_spec(lines.last()))));
            assert(ms[ms.len() - 1].0 as int == lines.len());
            assert forall|n: int|
                1 <= n <= lines.len() && contains_seq(#[trigger] lines[n - 1], pat) implies exists|
                k: int,
            |
                0 <= k < ms.len() && (#[trigger] ms[k].0 as int) == n by {
                if n == lines.len() {
                    assert(ms[ms.len() - 1].0 as int == n);
                } else {
                    let k = choose|k: int| 0 <= k < prev.len() && (prev[k].0 as int) == n;
                    assert(ms[k].0 as int == n);
                }
            }
        } else {
            assert(ms == prev);
            assert forall|n: int|
                1 <= n <= lines.len() && contains_seq(#[trigger] lines[n - 1], pat) implies exists|
                k: int,
            |
                0 <= k < ms.len() && (#[trigger] ms[k].0 as int) == n by {
                assert(n < lines.len());
                let k = choose|k: int| 0 <= k < prev.len() && (prev[k].0 as int) == n;
                assert(ms[k].0 as int == n);
            }
        }
    }
}

/// One file under inspection, named by its path.  The file's decoded text
/// is handed to the methods by the caller.
pub struct FileHandler {
    path: String,
}

impl View for FileHandler {
    type V = Seq<char>;

    closed spec fn view(&self) -> Seq<char> {
        self.path@
    }
}

impl FileHandler {
    /// A handler for the file at `path`.
    pub fn new(path: &str) -> (r: FileHandler)
        ensures
            r@ == path@,
    {
        FileHandler { path: path.to_owned() }
    }

    /// Looks the file's language up by its extension, recording the
    /// language name in the statistics when one is recognized.
    fn get_language(&self, file_stat: &mut FileStats) -> (r: Option<Language>)
        ensures
            match r {
                Some(l) => spec_language_for_extension(ext_of(self@)) == Some(l@)
                    && final(file_stat)@ == (FileStatsV { language: l@.name, ..old(file_stat)@ }),
                None => spec_language_for_extension(ext_of(self@)) is None && final(file_stat)@
                    == old(file_stat)@,
            },
    {
        let ext = extension_of(self.path.as_str());
        match language_for_extension(ext.as_str()) {
            Some(l) => {
                file_stat.add_language(l.get_name());
                Some(l)
            },
            None => None,
        }
    }

    /// Looks the file's language up by its extension, for the TODO search.
    pub fn get_language_for_search(&self) -> (r: Option<Language>)
        ensures
            match r {
                Some(l) => spec_language_for_extension(ext_of(self@)) == Some(l@),
                None => spec_language_for_extension(ext_of(self@)) is None,
            },
    {
        let ext = extension_of(self.path.as_str());
        language_for_extension(ext.as_str())
    }

    /// Counts the lines of a file in an unrecognized language: every line
    /// is blank or code, and there is no comment category.
    fn is_file_unknow(&self, content: &str, file_stat: &mut FileStats)
        requires
            old(file_stat)@.size == 0,
            old(file_stat)@.lines == 0,
            old(file_stat)@.blank_lines == 0,
            old(file_stat)@.comment_lines == 0,
            old(file_stat)@.code_lines == 0,
        ensures
            final(file_stat)@ == (FileStatsV {
                language: old(file_stat)@.language,
                size: content.len() as int,
                lines: spec_lines(content@).len() as int,
                blank_lines: count_blank(spec_lines(content@)),
                comment_lines: 0,
                code_lines: spec_lines(content@).len() - count_blank(spec_lines(content@)),
            }),
    {
        file_stat.add_size(content.len());
        let lines = split_lines(content);
        let n = lines.len();
        let mut blank_lines: usize = 0;
        let mut code_lines: usize = 0;
        let mut total_lines: usize = 0;
        let mut i: usize = 0;
        proof {
            assert(lines.deep_view().take(0) =~= Seq::<Seq<char>>::empty());
        }
        while i < n
            invariant
                lines.deep_view() == spec_lines(content@),
                n == lines@.len(),
                0 <= i <= n,
                total_lines == i,
                blank_lines == count_blank(lines.deep_view().take(i as int)),
                blank_lines + code_lines == i,
            decreases n - i,
        {
            let line = &lines[i];
            proof {
                assert(lines.deep_view()[i as int] == lines@[i as int]@);
                assert(lines.deep_view().take(i + 1).drop_last() =~= lines.deep_view().take(
                    i as int,
                ));
                assert(lines.deep_view().take(i + 1).last() == lines.deep_view()[i as int]);
            }
            if is_line_blank(line.as_str()) {
                blank_lines += 1;
            } else {
                code_lines += 1;
            }
            total_lines += 1;
            i += 1;
        }
        proof {
            assert(lines.deep_view().take(n as int) =~= lines.deep_view());
        }
        file_stat.add_blank_lines_tot(blank_lines);
        file_stat.add_code_lines_tot(code_lines);
        file_stat.add_lines_tot(total_lines);
    }

    /// Counts the lines of a file in a recognized language, running the
    /// two-state scan: outside a block comment a line is blank, a
    /// single-line comment, a block-comment opener or code; inside one,
    /// every line is a comment, and the end marker closes the block.
    fn is_file_known(&self, language: Language, content: &str, file_stat: &mut FileStats)
        requires
            lang_wf(language@),
            old(file_stat)@.size == 0,
            old(file_stat)@.lines == 0,
            old(file_stat)@.blank_lines == 0,
            old(file_stat)@.comment_lines == 0,
            old(file_stat)@.code_lines == 0,
        ensures
            final(file_stat)@ == (FileStatsV {
                language: old(file_stat)@.language,
                size: content.len() as int,
                lines: spec_lines(content@).len() as int,
                blank_lines: scan_lines(spec_lines(content@), language@).blank,
                comment_lines: scan_lines(spec_lines(content@), language@).comment,
                code_lines: scan_lines(spec_lines(content@), language@).code,
            }),
    {
        file_stat.add_size(content.len());
        let lines = split_lines(content);
        let n = lines.len();
        let single = language.get_single_line_comment();
        let begin = language.get_block_line_comment_begin();
        let end = language.get_block_line_comment_end();
        let mut blank_lines: usize = 0;
        let mut comment_lines: usize = 0;
        let mut code_lines: usize = 0;
        let mut total_lines: usize = 0;
        let mut is_in_block_comment = false;
        let mut i: usize = 0;
        proof {
            assert(lines.deep_view().take(0) =~= Seq::<Seq<char>>::empty());
        }
        while i < n
            invariant
                lines.deep_view() == spec_lines(content@),
                n == lines@.len(),
                0 <= i <= n,
                total_lines == i,
                lang_wf(language@),
                single@ == language@.single_line_comment,
                (match begin {
                    Some(b) => language@.block_line_comment_begin == Some(b@),
                    None => language@.block_line_comment_begin is None,
                }),
                (match end {
                    Some(e) => language@.block_line_comment_end == Some(e@),
                    None => language@.block_line_comment_end is None,
                }),
                blank_lines == scan_lines(lines.deep_view().take(i as int), language@).blank,
                comment_lines == scan_lines(lines.deep_view().take(i as int), language@).comment,
                code_lines == scan_lines(lines.deep_view().take(i as int), language@).code,
                is_in_block_comment == scan_lines(
                    lines.deep_view().take(i as int),
                    language@,
                ).in_block,
                blank_lines + comment_lines + code_lines == i,
            decreases n - i,
        {
            let line = &lines[i];
            proof {
                assert(lines.deep_view()[i as int] == lines@[i as int]@);
                assert(lines.deep_view().take(i + 1).drop_last() =~= lines.deep_view().take(
                    i as int,
                ));
                assert(lines.deep_view().take(i + 1).last() == lines.deep_view()[i as int]);
            }
            if !is_in_block_comment {
                if is_line_blank(line.as_str()) {
                    blank_lines += 1;
                } else if starts_after_ws(line.as_str(), single) {
                    comment_lines += 1;
                } else {
                    let opens = match begin {
                        Some(b) => contains_pattern(line.as_str(), b.as_str()),
                        None => false,
                    };
                    if opens {
                        comment_lines += 1;
                        is_in_block_comment = true;
                    } else {
                        code_lines += 1;
                    }
                }
            } else {
                let closes = match end {
                    Some(e) => contains_pattern(line.as_str(), e.as_str()),
                    None => false,
                };
                if closes {
                    is_in_block_comment = false;
                }
                comment_lines += 1;
            }
            total_lines += 1;
            i += 1;
        }
        proof {
            assert(lines.deep_view().take(n as int) =~= lines.deep_view());
        }
        file_stat.add_blank_lines_tot(blank_lines);
        file_stat.add_comment_lines_tot(comment_lines);
        file_stat.add_code_lines_tot(code_lines);
        file_stat.add_lines_tot(total_lines);
    }

    /// Classifies the file's text: every line is counted exactly once as
    /// blank, comment or code under the language recognized from the
    /// path's extension, and the byte size is recorded.
    pub fn get_file_stat(&self, content: &str) -> (r: FileStats)
        ensures
            r@ == spec_file_stat(self@, content),
    {
        let mut file_stat = FileStats::new();
        let lang = self.get_language(&mut file_stat);
        match lang {
            Some(l) => {
                proof {
                    lemma_recognized_language_wf(ext_of(self@));
                }
                self.is_file_known(l, content, &mut file_stat);
            },
            None => {
                self.is_file_unknow(content, &mut file_stat);
            },
        }
        file_stat
    }

    /// Finds every line of the file's text that holds the pattern: the
    /// result lists, in file order, each such line's 1-based number and
    /// trimmed text.
    pub fn search_pattern(&self, content: &str, pattern: &str) -> (r: Vec<(u32, String)>)
        requires
            spec_lines(content@).len() <= u32::MAX,
        ensures
            r.deep_view() == matches_of(spec_lines(content@), pattern@),
    {
        let lines = split_lines(content);
        let n = lines.len();
        let mut result: Vec<(u32, String)> = Vec::new();
        let mut i: usize = 0;
        proof {
            assert(lines.deep_view().take(0) =~= Seq::<Seq<char>>::empty());
            assert(result.deep_view() =~= Seq::<(u32, Seq<char>)>::empty());
        }
        while i < n
            invariant
                lines.deep_view() == spec_lines(content@),
                n == lines@.len(),
                n <= u32::MAX,
                0 <= i <= n,
                result.deep_view() == matches_of(lines.deep_view().take(i as int), pattern@),
            decreases n - i,
        {
            let line = &lines[i];
            proof {
                assert(lines.deep_view()[i as int] == lines@[i as int]@);
                assert(lines.deep_view().take(i + 1).drop_last() =~= lines.deep_view().take(
                    i as int,
                ));
                assert(lines.deep_view().take(i + 1).last() == lines.deep_view()[i as int]);
            }
            if contains_pattern(line.as_str(), pattern) {
                let ghost prev = result.deep_view();
                let num = (i + 1) as u32;
                let text = trim_str(line.as_str());
                result.push((num, text));
                proof {
                    assert(result.deep_view() =~= prev.push((num, text@)));
                }
            }
            i += 1;
        }
        proof {
            assert(lines.deep_view().take(n as int) =~= lines.deep_view());
        }
        result
    }
}

} // verus!
