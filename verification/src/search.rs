//! Searching files for a literal pattern or for TODO markers.  Each file
//! with at least one match yields one `SearchResult` holding, in file
//! order, the 1-based numbers and trimmed texts of its matching lines.
//! In TODO mode the effective pattern is the language's single-line
//! comment marker followed by ` TODO`, and the reported text is what
//! follows the last `TODO` token, trimmed; files whose language is not
//! recognized are skipped entirely.

use vstd::prelude::*;

use crate::file_handler::FileHandler;
use crate::file_handler::matches_of;
use crate::languages_mapping::spec_language_for_extension;
use crate::languages_mapping::is_ignored_extension;
use crate::text::ext_of;
use crate::text::extension_of;
use crate::text::match_at;
use crate::text::spec_lines;
use crate::text::str_eq;
use crate::text::trim_spec;
use crate::text::trim_str;
use crate::languages_mapping::extension_is_ignored;

verus! {

/// Mathematical shape of one file's search result.
pub struct SearchResultV {
    pub file_name: Seq<char>,
    pub lines: Seq<(u32, Seq<char>)>,
}

/// The matches found in one file: the file's path and, in file order, the
/// matching lines' 1-based numbers and texts.
pub struct SearchResult {
    pub file_name: String,
    pub lines: Vec<(u32, String)>,
}

impl View for SearchResult {
    type V = SearchResultV;

    open spec fn view(&self) -> SearchResultV {
        SearchResultV { file_name: self.file_name@, lines: self.lines.deep_view() }
    }
}

impl SearchResult {
    /// An empty result for the named file.
    pub fn new(file_name: String) -> (r: SearchResult)
        ensures
            r@.file_name == file_name@,
            r@.lines == Seq::<(u32, Seq<char>)>::empty(),
    {
        let r = SearchResult { file_name, lines: Vec::new() };
        proof {
            assert(r.lines.deep_view() =~= Seq::<(u32, Seq<char>)>::empty());
        }
        r
    }

    /// Appends one matching line.
    fn add_lines(&mut self, value: (u32, String))
        ensures
            final(self)@.file_name == old(self)@.file_name,
            final(self)@.lines == old(self)@.lines.push((value.0, value.1@)),
    {
        let ghost prev = self.lines.deep_view();
        self.lines.push(value);
        proof {
            assert(self.lines.deep_view() =~= prev.push((value.0, value.1@)));
        }
    }
}

/// The suffix of `l` after the last occurrence of `pat`, or all of `l`
/// when `pat` does not occur in it.
pub open spec fn after_last(l: Seq<char>, pat: Seq<char>) -> Seq<char>
    decreases l.len(),
{
    if pat.len() == 0 || pat.len() > l.len() {
        l
    } else if l.subrange(l.len() - pat.len(), l.len() as int) == pat {
        Seq::empty()
    } else {
        after_last(l.drop_last(), pat).push(l[l.len() - 1])
    }
}

/// When `i` is the start of the last occurrence of `pat`, `after_last`
/// yields the suffix after that occurrence.
proof fn lemma_after_last_found(l: Seq<char>, pat: Seq<char>, i: int)
    requires
        pat.len() > 0,
        match_at(l, pat, i),
        forall|k: int| i < k ==> !match_at(l, pat, k),
    ensures
        after_last(l, pat) == l.subrange(i + pat.len(), l.len() as int),
    decreases l.len(),
{
    if i + pat.len() == l.len() {
        assert(l.subrange(l.len() - pat.len(), l.len() as int) == pat);
        assert(l.subrange(i + pat.len(), l.len() as int) =~= Seq::<char>::empty());
    } else {
        assert(l.subrange(l.len() - pat.len(), l.len() as int) != pat) by {
            if l.subrange(l.len() - pat.len(), l.len() as int) == pat {
                assert(match_at(l, pat, l.len() - pat.len()));
            }
        }
        let l2 = l.drop_last();
        assert(match_at(l2, pat, i)) by {
            assert(l2.subrange(i, i + pat.len() as int) =~= l.subrange(i, i + pat.len() as int));
        }
        assert forall|k: int| i < k implies !match_at(l2, pat, k) by {
            if match_at(l2, pat, k) {
                assert(l.subrange(k, k + pat.len() as int) =~= l2.subrange(
                    k,
                    k + pat.len() as int,
                ));
                assert(match_at(l, pat, k));
            }
        }
        lemma_after_last_found(l2, pat, i);
        assert(l2.subrange(i + pat.len(), l2.len() as int).push(l[l.len() - 1]) =~= l.subrange(
            i + pat.len(),
            l.len() as int,
        ));
    }
}

/// When `pat` does not occur in `l`, `after_last` yields all of `l`.
proof fn lemma_after_last_none(l: Seq<char>, pat: Seq<char>)
    requires
        pat.len() > 0,
        forall|k: int| !match_at(l, pat, k),
    ensures
        after_last(l, pat) == l,
    decreases l.len(),
{
    if pat.len() <= l.len() {
        assert(l.subrange(l.len() - pat.len(), l.len() as int) != pat) by {
            if l.subrange(l.len() - pat.len(), l.len() as int) == pat {
                assert(match_at(l, pat, l.len() - pat.len()));
            }
        }
        let l2 = l.drop_last();
        assert forall|k: int| !match_at(l2, pat, k) by {
            if match_at(l2, pat, k) {
                assert(l.subrange(k, k + pat.len() as int) =~= l2.subrange(
                    k,
                    k + pat.len() as int,
                ));
                assert(match_at(l, pat, k));
            }
        }
        lemma_after_last_none(l2, pat);
        assert(l2.push(l[l.len() - 1]) =~= l);
    }
}

/// The suffix of `l` after the last occurrence of `pat`, matching
/// `after_last`.
fn after_last_str(l: &str, pat: &str) -> (r: String)
    requires
        pat@.len() > 0,
    ensures
        r@ == after_last(l@, pat@),
{
    let n = l.unicode_len();
    let m = pat.unicode_len();
    if m > n {
        proof {
            assert(forall|k: int| !match_at(l@, pat@, k));
            lemma_after_last_none(l@, pat@);
        }
        return l.to_owned();
    }
    // Scan candidate start positions from the highest downward; the first
    // hit is the last occurrence.
    let mut i: usize = n - m + 1;
    while i > 0
        invariant
            n == l@.len(),
            m == pat@.len(),
            0 < m <= n,
            0 <= i <= n - m + 1,
            forall|k: int| i <= k ==> !match_at(l@, pat@, k),
        decreases i,
    {
        i -= 1;
        if crate::text::match_at_str(l, pat, i) {
            proof {
                lemma_after_last_found(l@, pat@, i as int);
            }
            return l.substring_char(i + m, n).to_owned();
        }
    }
    proof {
        assert(forall|k: int| !match_at(l@, pat@, k));
        lemma_after_last_none(l@, pat@);
    }
    l.to_owned()
}

/// The effective pattern of the TODO search for a language: its
/// single-line comment marker followed by ` TODO`.
pub open spec fn todo_pattern(single: Seq<char>) -> Seq<char> {
    single + " TODO"@
}

/// The entries the TODO search reports for a file's lines: one entry per
/// line holding the effective pattern, carrying the line's number and the
/// trimmed text after the last `TODO` token.
pub open spec fn todo_entries(lines: Seq<Seq<char>>, single: Seq<char>) -> Seq<(u32, Seq<char>)> {
    matches_of(lines, todo_pattern(single)).map_values(
        |e: (u32, Seq<char>)| (e.0, trim_spec(after_last(e.1, "TODO"@))),
    )
}

/// Searches one file's text for a literal pattern.  Files whose
/// extension is on the ignore-list are excluded from the search
/// entirely; otherwise a result is produced exactly when some line holds
/// the pattern, and lists every matching line in file order.
pub fn search_file_pattern(file_name: &str, content: &str, pattern: &str) -> (r: Option<
    SearchResult,
>)
    requires
        spec_lines(content@).len() <= u32::MAX,
    ensures
        (match r {
            Some(sr) => !is_ignored_extension(ext_of(file_name@)) && matches_of(
                spec_lines(content@),
                pattern@,
            ).len() > 0 && sr@.file_name == file_name@ && sr@.lines == matches_of(
                spec_lines(content@),
                pattern@,
            ),
            None => is_ignored_extension(ext_of(file_name@)) || matches_of(
                spec_lines(content@),
                pattern@,
            ).len() == 0,
        }),
{
    let ext = extension_of(file_name);
    if extension_is_ignored(ext.as_str()) {
        return None;
    }
    let handler = FileHandler::new(file_name);
    let result = handler.search_pattern(content, pattern);
    let n = result.len();
    if n == 0 {
        return None;
    }
    let mut search_result = SearchResult::new(file_name.to_owned());
    let mut i: usize = 0;
    while i < n
        invariant
            n == result@.len(),
            0 <= i <= n,
            search_result@.file_name == file_name@,
            search_result@.lines =~= result.deep_view().take(i as int),
        decreases n - i,
    {
        let pair = &result[i];
        let num = pair.0;
        let text = pair.1.clone();
        search_result.add_lines((num, text));
        proof {
            assert(result.deep_view()[i as int] == (result@[i as int].0, result@[i as int].1@));
            assert(result.deep_view().take(i + 1) =~= result.deep_view().take(i as int).push(
                result.deep_view()[i as int],
            ));
        }
        i += 1;
    }
    proof {
        assert(result.deep_view().take(n as int) =~= result.deep_view());
    }
    Some(search_result)
}

/// Searches one file's text for TODO markers.  Files whose extension is on
/// the ignore-list or names no recognized language are skipped; otherwise
/// a result is produced exactly when some line holds the language's
/// comment marker followed by ` TODO`, and each entry carries the trimmed
/// text after the line's last `TODO` token.
pub fn search_file_todo(file_name: &str, content: &str) -> (r: Option<SearchResult>)
    requires
        spec_lines(content@).len() <= u32::MAX,
    ensures
        (match (r, spec_language_for_extension(ext_of(file_name@))) {
            (Some(sr), Some(l)) => !is_ignored_extension(ext_of(file_name@)) && todo_entries(
                spec_lines(content@),
                l.single_line_comment,
            ).len() > 0 && sr@.file_name == file_name@ && sr@.lines == todo_entries(
                spec_lines(content@),
                l.single_line_comment,
            ),
            (None, Some(l)) => is_ignored_extension(ext_of(file_name@)) || todo_entries(
                spec_lines(content@),
                l.single_line_comment,
            ).len() == 0,
            (None, None) => true,
            (Some(_), None) => false,
        }),
{
    let ext = extension_of(file_name);
    if extension_is_ignored(ext.as_str()) {
        return None;
    }
    let handler = FileHandler::new(file_name);
    match handler.get_language_for_search() {
        Some(language) => {
            let single = language.get_single_line_comment();
            let pattern = single.to_owned().concat(" TODO");
            let result = handler.search_pattern(content, pattern.as_str());
            let n = result.len();
            if n == 0 {
                proof {
                    assert(todo_entries(spec_lines(content@), language@.single_line_comment).len()
                        == 0);
                }
                return None;
            }
            let mut search_result = SearchResult::new(file_name.to_owned());
            proof {
                reveal_strlit("TODO");
            }
            let mut i: usize = 0;
            while i < n
                invariant
                    n == result@.len(),
                    0 <= i <= n,
                    "TODO"@.len() > 0,
                    search_result@.file_name == file_name@,
                    search_result@.lines.len() == i,
                    forall|k: int|
                        0 <= k < i ==> search_result@.lines[k] == (
                        result.deep_view()[k].0,
                        trim_spec(after_last(result.deep_view()[k].1, "TODO"@)),
                        ),
                decreases n - i,
            {
                let pair = &result[i];
                let num = pair.0;
                let just = after_last_str(pair.1.as_str(), "TODO");
                let trimmed = trim_str(just.as_str());
                search_result.add_lines((num, trimmed));
                proof {
                    assert(result.deep_view()[i as int] == (
                        result@[i as int].0,
                        result@[i as int].1@,
                    ));
                }
                i += 1;
            }
            proof {
                assert(search_result@.lines =~= todo_entries(
                    spec_lines(content@),
                    language@.single_line_comment,
                ));
            }
            Some(search_result)
        },
        None => None,
    }
}

/// One search run: the files to search, the pattern, and the collected
/// per-file results.
pub struct Search {
    pub files: Vec<String>,
    pub pattern: String,
    pub search_result: Vec<SearchResult>,
}

impl Search {
    /// A search over the given files for the given pattern, with no
    /// results collected yet.
    pub fn new(files: Vec<String>, pattern: &str) -> (r: Search)
        ensures
            r.files == files,
            r.pattern@ == pattern@,
            r.search_result@.len() == 0,
    {
        Search { files, pattern: pattern.to_owned(), search_result: Vec::new() }
    }

    /// Whether this run searches for TODO markers: the pattern is the
    /// literal `TODO`.
    pub fn is_todo_mode(&self) -> (r: bool)
        ensures
            r == (self.pattern@ == "TODO"@),
    {
        str_eq(self.pattern.as_str(), "TODO")
    }
}

} // verus!
