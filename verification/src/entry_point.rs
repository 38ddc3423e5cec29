//! Folding a batch of per-file outcomes into the aggregate.  Each file of
//! the batch either classified successfully or was rejected (unreadable,
//! binary, or of an ignored extension); rejected files only bump the
//! ignored counter, and the totals reflect exactly the successful ones.

use vstd::prelude::*;

use crate::file_handler::FileStats;
use crate::file_handler::lemma_file_stats_bounds;
use crate::file_supplier::ExtractInfo;
use crate::file_supplier::ExtractInfoV;
use crate::file_supplier::StatPerLanguageV;
use crate::file_supplier::merged_stat;
use crate::file_supplier::new_per_language;
use crate::file_supplier::spec_add_stat;
use crate::text::str_eq;

verus! {

/// How many outcomes of a batch are successful classifications.
pub open spec fn count_ok(outcomes: Seq<Result<FileStats, String>>) -> int
    decreases outcomes.len(),
{
    if outcomes.len() == 0 {
        0
    } else {
        count_ok(outcomes.drop_last()) + if outcomes.last() is Ok {
            1int
        } else {
            0int
        }
    }
}

/// Total byte size over the successful outcomes of a batch.
pub open spec fn sum_sizes(outcomes: Seq<Result<FileStats, String>>) -> int
    decreases outcomes.len(),
{
    if outcomes.len() == 0 {
        0
    } else {
        sum_sizes(outcomes.drop_last()) + (match outcomes.last() {
            Ok(st) => st@.size,
            Err(_) => 0int,
        })
    }
}

/// Total line count over the successful outcomes of a batch.
pub open spec fn sum_lines(outcomes: Seq<Result<FileStats, String>>) -> int
    decreases outcomes.len(),
{
    if outcomes.len() == 0 {
        0
    } else {
        sum_lines(outcomes.drop_last()) + (match outcomes.last() {
            Ok(st) => st@.lines,
            Err(_) => 0int,
        })
    }
}

/// Total blank-line count over the successful outcomes of a batch.
pub open spec fn sum_blank_lines(outcomes: Seq<Result<FileStats, String>>) -> int
    decreases outcomes.len(),
{
    if outcomes.len() == 0 {
        0
    } else {
        sum_blank_lines(outcomes.drop_last()) + (match outcomes.last() {
            Ok(st) => st@.blank_lines,
            Err(_) => 0int,
        })
    }
}

/// Total comment-line count over the successful outcomes of a batch.
pub open spec fn sum_comment_lines(outcomes: Seq<Result<FileStats, String>>) -> int
    decreases outcomes.len(),
{
    if outcomes.len() == 0 {
        0
    } else {
        sum_comment_lines(outcomes.drop_last()) + (match outcomes.last() {
            Ok(st) => st@.comment_lines,
            Err(_) => 0int,
        })
    }
}

/// Total code-line count over the successful outcomes of a batch.
pub open spec fn sum_code_lines(outcomes: Seq<Result<FileStats, String>>) -> int
    decreases outcomes.len(),
{
    if outcomes.len() == 0 {
        0
    } else {
        sum_code_lines(outcomes.drop_last()) + (match outcomes.last() {
            Ok(st) => st@.code_lines,
            Err(_) => 0int,
        })
    }
}

/// The per-language subtotals over the successful outcomes of a batch, in
/// batch order.
pub open spec fn fold_langs(outcomes: Seq<Result<FileStats, String>>) -> Seq<StatPerLanguageV>
    decreases outcomes.len(),
{
    if outcomes.len() == 0 {
        Seq::empty()
    } else {
        let prev = fold_langs(outcomes.drop_last());
        match outcomes.last() {
            Ok(st) => spec_add_stat(prev, st@),
            Err(_) => prev,
        }
    }
}

/// The success count of a batch lies between 0 and the batch length, and
/// every total is nonnegative.
pub proof fn lemma_counts_bounds(outcomes: Seq<Result<FileStats, String>>)
    ensures
        0 <= count_ok(outcomes) <= outcomes.len(),
        0 <= sum_sizes(outcomes),
        0 <= sum_lines(outcomes),
        0 <= sum_blank_lines(outcomes),
        0 <= sum_comment_lines(outcomes),
        0 <= sum_code_lines(outcomes),
    decreases outcomes.len(),
{
    if outcomes.len() > 0 {
        lemma_counts_bounds(outcomes.drop_last());
        if let Ok(st) = outcomes.last() {
            lemma_file_stats_bounds(&st);
        }
    }
}

/// Counts and totals over a prefix of the batch never exceed those over
/// the whole batch.
pub proof fn lemma_counts_take_mono(outcomes: Seq<Result<FileStats, String>>, i: int)
    requires
        0 <= i <= outcomes.len(),
    ensures
        count_ok(outcomes.take(i)) <= count_ok(outcomes),
        sum_sizes(outcomes.take(i)) <= sum_sizes(outcomes),
        sum_lines(outcomes.take(i)) <= sum_lines(outcomes),
        sum_blank_lines(outcomes.take(i)) <= sum_blank_lines(outcomes),
        sum_comment_lines(outcomes.take(i)) <= sum_comment_lines(outcomes),
        sum_code_lines(outcomes.take(i)) <= sum_code_lines(outcomes),
    decreases outcomes.len(),
{
    if i == outcomes.len() {
        assert(outcomes.take(i) =~= outcomes);
    } else {
        assert(outcomes.drop_last().take(i) =~= outcomes.take(i));
        lemma_counts_take_mono(outcomes.drop_last(), i);
        if let Ok(st) = outcomes.last() {
            lemma_file_stats_bounds(&st);
        }
    }
}

/// Folding one file into a bounded per-language list keeps every entry
/// bounded, with each bound grown by that file's contribution.
proof fn lemma_add_stat_bounds(
    list: Seq<StatPerLanguageV>,
    st: crate::file_handler::FileStatsV,
    bf: int,
    bs: int,
    bl: int,
    bb: int,
    bc: int,
    bd: int,
)
    requires
        0 <= st.size,
        0 <= st.lines,
        0 <= st.blank_lines,
        0 <= st.comment_lines,
        0 <= st.code_lines,
        0 <= bf,
        0 <= bs,
        0 <= bl,
        0 <= bb,
        0 <= bc,
        0 <= bd,
        forall|j: int|
            0 <= j < list.len() ==> {
                let e = #[trigger] list[j];
                &&& 0 <= e.number_of_files <= bf
                &&& 0 <= e.total_size <= bs
                &&& 0 <= e.tot_lines <= bl
                &&& 0 <= e.tot_blank_lines <= bb
                &&& 0 <= e.tot_comment_lines <= bc
                &&& 0 <= e.tot_code_lines <= bd
            },
    ensures
        forall|j: int|
            0 <= j < spec_add_stat(list, st).len() ==> {
                let e = #[trigger] spec_add_stat(list, st)[j];
                &&& 0 <= e.number_of_files <= bf + 1
                &&& 0 <= e.total_size <= bs + st.size
                &&& 0 <= e.tot_lines <= bl + st.lines
                &&& 0 <= e.tot_blank_lines <= bb + st.blank_lines
                &&& 0 <= e.tot_comment_lines <= bc + st.comment_lines
                &&& 0 <= e.tot_code_lines <= bd + st.code_lines
            },
    decreases list.len(),
{
    if list.len() == 0 {
    } else if list[0].language == st.language {
        let r = seq![merged_stat(list[0], st)] + list.skip(1);
        assert forall|j: int| 0 <= j < r.len() implies {
            let e = #[trigger] r[j];
            &&& 0 <= e.number_of_files <= bf + 1
            &&& 0 <= e.total_size <= bs + st.size
            &&& 0 <= e.tot_lines <= bl + st.lines
            &&& 0 <= e.tot_blank_lines <= bb + st.blank_lines
            &&& 0 <= e.tot_comment_lines <= bc + st.comment_lines
            &&& 0 <= e.tot_code_lines <= bd + st.code_lines
        } by {
            if j > 0 {
                assert(r[j] == list[j]);
            }
        }
    } else {
        lemma_add_stat_bounds(list.skip(1), st, bf, bs, bl, bb, bc, bd);
        let rest = spec_add_stat(list.skip(1), st);
        let r = seq![list[0]] + rest;
        assert forall|j: int| 0 <= j < r.len() implies {
            let e = #[trigger] r[j];
            &&& 0 <= e.number_of_files <= bf + 1
            &&& 0 <= e.total_size <= bs + st.size
            &&& 0 <= e.tot_lines <= bl + st.lines
            &&& 0 <= e.tot_blank_lines <= bb + st.blank_lines
            &&& 0 <= e.tot_comment_lines <= bc + st.comment_lines
            &&& 0 <= e.tot_code_lines <= bd + st.code_lines
        } by {
            if j > 0 {
                assert(r[j] == rest[j - 1]);
            }
        }
    }
}

/// Removing one outcome takes exactly its contribution out of the counts
/// and totals.
proof fn lemma_counts_remove(s: Seq<Result<FileStats, String>>, k: int)
    requires
        0 <= k < s.len(),
    ensures
        count_ok(s) == count_ok(s.remove(k)) + (if s[k] is Ok {
            1int
        } else {
            0int
        }),
        sum_sizes(s) == sum_sizes(s.remove(k)) + (match s[k] {
            Ok(st) => st@.size,
            Err(_) => 0int,
        }),
        sum_lines(s) == sum_lines(s.remove(k)) + (match s[k] {
            Ok(st) => st@.lines,
            Err(_) => 0int,
        }),
        sum_blank_lines(s) == sum_blank_lines(s.remove(k)) + (match s[k] {
            Ok(st) => st@.blank_lines,
            Err(_) => 0int,
        }),
        sum_comment_lines(s) == sum_comment_lines(s.remove(k)) + (match s[k] {
            Ok(st) => st@.comment_lines,
            Err(_) => 0int,
        }),
        sum_code_lines(s) == sum_code_lines(s.remove(k)) + (match s[k] {
            Ok(st) => st@.code_lines,
            Err(_) => 0int,
        }),
    decreases s.len(),
{
    if k == s.len() - 1 {
        assert(s.remove(k) =~= s.drop_last());
    } else {
        assert(s.remove(k).drop_last() =~= s.drop_last().remove(k));
        assert(s.remove(k).last() == s.last());
        lemma_counts_remove(s.drop_last(), k);
    }
}

/// The aggregate's counts and totals do not depend on the order in which
/// the batch's outcomes were produced: two batches holding the same
/// outcomes, however arranged, have the same success count, the same
/// ignored count and the same totals.
pub proof fn lemma_fold_order_independent(
    a: Seq<Result<FileStats, String>>,
    b: Seq<Result<FileStats, String>>,
)
    requires
        a.to_multiset() == b.to_multiset(),
    ensures
        a.len() == b.len(),
        count_ok(a) == count_ok(b),
        sum_sizes(a) == sum_sizes(b),
        sum_lines(a) == sum_lines(b),
        sum_blank_lines(a) == sum_blank_lines(b),
        sum_comment_lines(a) == sum_comment_lines(b),
        sum_code_lines(a) == sum_code_lines(b),
    decreases a.len(),
{
    broadcast use vstd::seq_lib::group_to_multiset_ensures;

    assert(a.to_multiset().len() == a.len());
    assert(b.to_multiset().len() == b.len());
    if a.len() == 0 {
    } else {
        let x = a.last();
        assert(a.contains(x));
        assert(b.to_multiset().count(x) > 0);
        assert(b.contains(x));
        let k = choose|k: int| 0 <= k < b.len() && b[k] == x;
        let b2 = b.remove(k);
        assert(a.drop_last().push(x) =~= a);
        assert(a.drop_last().to_multiset().insert(x) == a.to_multiset());
        assert(b2.to_multiset() == b.to_multiset().remove(x));
        assert(a.drop_last().to_multiset() == b2.to_multiset()) by {
            assert(a.drop_last().to_multiset().insert(x).remove(x) =~= a.drop_last().to_multiset());
        }
        lemma_fold_order_independent(a.drop_last(), b2);
        lemma_counts_remove(b, k);
    }
}

/// Folds a batch of per-file outcomes into one aggregate.  Every
/// successful file is counted once in the totals and in its language's
/// subtotals; every failed file bumps only the ignored counter, so a
/// failure never disturbs the rest of the batch.
pub fn fold_outcomes(outcomes: &Vec<Result<FileStats, String>>) -> (r: ExtractInfo)
    requires
        sum_sizes(outcomes@) <= usize::MAX,
        sum_lines(outcomes@) <= usize::MAX,
        sum_blank_lines(outcomes@) <= usize::MAX,
        sum_comment_lines(outcomes@) <= usize::MAX,
        sum_code_lines(outcomes@) <= usize::MAX,
    ensures
        r@.number_of_files == count_ok(outcomes@),
        r@.number_of_files_ignore == outcomes@.len() - count_ok(outcomes@),
        r@.number_of_directories == 0,
        r@.total_size == sum_sizes(outcomes@),
        r@.tot_lines == sum_lines(outcomes@),
        r@.tot_blank_lines == sum_blank_lines(outcomes@),
        r@.tot_comment_lines == sum_comment_lines(outcomes@),
        r@.tot_code_lines == sum_code_lines(outcomes@),
        r@.stats_per_language == fold_langs(outcomes@),
{
    let mut info = ExtractInfo::new();
    let n = outcomes.len();
    let mut i: usize = 0;
    proof {
        assert(outcomes@.take(0) =~= Seq::<Result<FileStats, String>>::empty());
    }
    while i < n
        invariant
            n == outcomes@.len(),
            0 <= i <= n,
            sum_sizes(outcomes@) <= usize::MAX,
            sum_lines(outcomes@) <= usize::MAX,
            sum_blank_lines(outcomes@) <= usize::MAX,
            sum_comment_lines(outcomes@) <= usize::MAX,
            sum_code_lines(outcomes@) <= usize::MAX,
            info@.number_of_files == count_ok(outcomes@.take(i as int)),
            info@.number_of_files_ignore == i - count_ok(outcomes@.take(i as int)),
            info@.number_of_directories == 0,
            info@.total_size == sum_sizes(outcomes@.take(i as int)),
            info@.tot_lines == sum_lines(outcomes@.take(i as int)),
            info@.tot_blank_lines == sum_blank_lines(outcomes@.take(i as int)),
            info@.tot_comment_lines == sum_comment_lines(outcomes@.take(i as int)),
            info@.tot_code_lines == sum_code_lines(outcomes@.take(i as int)),
            info@.stats_per_language == fold_langs(outcomes@.take(i as int)),
            forall|j: int|
                0 <= j < info@.stats_per_language.len() ==> {
                    let e = #[trigger] info@.stats_per_language[j];
                    &&& 0 <= e.number_of_files <= info@.number_of_files
                    &&& 0 <= e.total_size <= info@.total_size
                    &&& 0 <= e.tot_lines <= info@.tot_lines
                    &&& 0 <= e.tot_blank_lines <= info@.tot_blank_lines
                    &&& 0 <= e.tot_comment_lines <= info@.tot_comment_lines
                    &&& 0 <= e.tot_code_lines <= info@.tot_code_lines
                },
        decreases n - i,
    {
        proof {
            assert(outcomes@.take(i + 1).drop_last() =~= outcomes@.take(i as int));
            assert(outcomes@.take(i + 1).last() == outcomes@[i as int]);
            lemma_counts_bounds(outcomes@.take(i as int));
            lemma_counts_take_mono(outcomes@, i + 1);
        }
        match &outcomes[i] {
            Ok(st) => {
                proof {
                    lemma_file_stats_bounds(st);
                }
                info.add_number_of_files();
                info.add_total_size(st.get_size());
                info.add_tot_lines(st.get_lines());
                info.add_tot_blank_lines(st.get_blank_lines());
                info.add_tot_comment_lines(st.get_comment_lines());
                info.add_tot_code_lines(st.get_code_lines());
                proof {
                    lemma_add_stat_bounds(
                        fold_langs(outcomes@.take(i as int)),
                        st@,
                        count_ok(outcomes@.take(i as int)),
                        sum_sizes(outcomes@.take(i as int)),
                        sum_lines(outcomes@.take(i as int)),
                        sum_blank_lines(outcomes@.take(i as int)),
                        sum_comment_lines(outcomes@.take(i as int)),
                        sum_code_lines(outcomes@.take(i as int)),
                    );
                }
                info.add_stat_for_each_language(st);
            },
            Err(_) => {
                info.add_number_of_files_ignore();
            },
        }
        i += 1;
    }
    proof {
        assert(outcomes@.take(n as int) =~= outcomes@);
    }
    info
}

/// The pattern a search argument selects: the TODO shorthand flags name
/// the literal `TODO`, and any other argument is itself the pattern.
pub fn select_pattern(arg: &str) -> (r: String)
    ensures
        r@ == (if arg@ == "-t"@ || arg@ == "--todo"@ {
            "TODO"@
        } else {
            arg@
        }),
{
    if str_eq(arg, "-t") || str_eq(arg, "--todo") {
        String::from_str("TODO")
    } else {
        arg.to_owned()
    }
}

} // verus!
