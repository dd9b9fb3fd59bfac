use vstd::prelude::*;
use vstd::seq_lib::lemma_multiset_commutative;
use crate::errors::ScanError;

verus! {

/// The mathematical value of one unit result.
pub open spec fn result_view(r: Result<Vec<Vec<u8>>, ScanError>) -> Result<
    Seq<Seq<u8>>,
    ScanError,
> {
    match r {
        Ok(ms) => Ok(ms.deep_view()),
        Err(e) => Err(e),
    }
}

/// The mathematical value of a sequence of unit results.
pub open spec fn results_view(rs: Seq<Result<Vec<Vec<u8>>, ScanError>>) -> Seq<
    Result<Seq<Seq<u8>>, ScanError>,
> {
    rs.map_values(|r| result_view(r))
}

/// The matches one unit result contributes: its matches when the unit
/// succeeded, nothing when it failed.
pub open spec fn ok_matches(r: Result<Seq<Seq<u8>>, ScanError>) -> Seq<Seq<u8>> {
    match r {
        Ok(ms) => ms,
        Err(_) => Seq::empty(),
    }
}

/// What one unit result adds to the processed-unit counter: one when the
/// unit succeeded, nothing when it failed.
pub open spec fn ok_count(r: Result<Seq<Seq<u8>>, ScanError>) -> int {
    if r is Ok {
        1
    } else {
        0
    }
}

/// How many unit results succeeded.
pub open spec fn spec_processed(rs: Seq<Result<Seq<Seq<u8>>, ScanError>>) -> int
    decreases rs.len(),
{
    if rs.len() == 0 {
        0
    } else {
        ok_count(rs[0]) + spec_processed(rs.drop_first())
    }
}

/// The matches of the successful unit results, concatenated in order.
pub open spec fn spec_all_matches(rs: Seq<Result<Seq<Seq<u8>>, ScanError>>) -> Seq<Seq<u8>>
    decreases rs.len(),
{
    if rs.len() == 0 {
        Seq::empty()
    } else {
        ok_matches(rs[0]) + spec_all_matches(rs.drop_first())
    }
}

/// Appending one more unit result extends the aggregate by that unit's
/// contribution.
pub proof fn lemma_aggregate_push(
    rs: Seq<Result<Seq<Seq<u8>>, ScanError>>,
    x: Result<Seq<Seq<u8>>, ScanError>,
)
    ensures
        spec_processed(rs.push(x)) == spec_processed(rs) + ok_count(x),
        spec_all_matches(rs.push(x)) == spec_all_matches(rs) + ok_matches(x),
    decreases rs.len(),
{
    if rs.len() == 0 {
        assert(rs.push(x).drop_first() =~= rs);
        assert(spec_all_matches(rs.push(x)) =~~= spec_all_matches(rs) + ok_matches(x));
    } else {
        assert(rs.push(x).drop_first() =~= rs.drop_first().push(x));
        lemma_aggregate_push(rs.drop_first(), x);
        assert(spec_all_matches(rs.push(x)) =~~= spec_all_matches(rs) + ok_matches(x));
    }
}

/// Removing one unit result takes away exactly that unit's contribution:
/// its count, and (as a multiset, since the removal may reorder what
/// surrounds it) its matches.
pub proof fn lemma_aggregate_remove(rs: Seq<Result<Seq<Seq<u8>>, ScanError>>, j: int)
    requires
        0 <= j < rs.len(),
    ensures
        spec_processed(rs.remove(j)) == spec_processed(rs) - ok_count(rs[j]),
        spec_all_matches(rs).to_multiset() == spec_all_matches(rs.remove(j)).to_multiset().add(
            ok_matches(rs[j]).to_multiset(),
        ),
    decreases j,
{
    lemma_multiset_commutative(ok_matches(rs[0]), spec_all_matches(rs.drop_first()));
    if j == 0 {
        assert(rs.remove(0) =~= rs.drop_first());
        assert(spec_all_matches(rs).to_multiset() =~= spec_all_matches(
            rs.remove(0),
        ).to_multiset().add(ok_matches(rs[0]).to_multiset()));
    } else {
        let dropped = rs.drop_first();
        lemma_aggregate_remove(dropped, j - 1);
        assert(rs.remove(j).drop_first() =~= dropped.remove(j - 1));
        assert(rs.remove(j)[0] == rs[0]);
        lemma_multiset_commutative(
            ok_matches(rs[0]),
            spec_all_matches(dropped.remove(j - 1)),
        );
        assert(spec_all_matches(rs).to_multiset() =~= spec_all_matches(
            rs.remove(j),
        ).to_multiset().add(ok_matches(rs[j]).to_multiset()));
    }
}

/// Aggregation does not depend on the order units were processed in: two
/// runs over the same multiset of unit results - as when concurrent
/// workers finish in different orders - yield the same processed count
/// and the same multiset of matches.  Each unit's result is itself a
/// function of its text alone (the scanner's contract pins it to the
/// model of the parse), so two runs over the same unchanged inputs carry
/// the same multiset of results here and report the same outcome.
pub proof fn lemma_aggregate_order_independent(
    rs1: Seq<Result<Seq<Seq<u8>>, ScanError>>,
    rs2: Seq<Result<Seq<Seq<u8>>, ScanError>>,
)
    requires
        rs1.to_multiset() == rs2.to_multiset(),
    ensures
        spec_processed(rs1) == spec_processed(rs2),
        spec_all_matches(rs1).to_multiset() == spec_all_matches(rs2).to_multiset(),
    decreases rs1.len(),
{
    rs1.to_multiset_ensures();
    rs2.to_multiset_ensures();
    if rs1.len() == 0 {
        assert(rs2.len() == 0);
    } else {
        let x = rs1[0];
        assert(rs1.contains(x));
        assert(rs2.to_multiset().count(x) > 0);
        assert(rs2.contains(x));
        let j = choose|j: int| 0 <= j < rs2.len() && rs2[j] == x;
        lemma_aggregate_remove(rs1, 0);
        lemma_aggregate_remove(rs2, j);
        assert(rs1.remove(0).to_multiset() == rs1.to_multiset().remove(x));
        assert(rs2.remove(j).to_multiset() == rs2.to_multiset().remove(x));
        lemma_aggregate_order_independent(rs1.remove(0), rs2.remove(j));
    }
}

/// What one run reports: every match found, the processed-unit counter,
/// and how many units failed.
pub struct RunOutcome {
    /// The matches of the successful units, concatenated in unit order.
    pub matches: Vec<Vec<u8>>,
    /// How many units were successfully processed.
    pub processed: usize,
    /// How many units failed; failures never abort sibling units.
    pub failed: usize,
}

/// Folds the results of independently scanned units into one outcome:
/// the matches of the successful units concatenated in order, the count
/// of successful units (the processed-unit counter's value), and the
/// count of failed units.
pub fn aggregate_results(results: Vec<Result<Vec<Vec<u8>>, ScanError>>) -> (out: RunOutcome)
    ensures
        out.matches.deep_view() == spec_all_matches(results_view(results@)),
        out.processed as int == spec_processed(results_view(results@)),
        out.failed as int == results@.len() - spec_processed(results_view(results@)),
{
    let ghost orig = results_view(results@);
    let mut rest = results;
    let total: usize = rest.len();
    let ghost mut done = Seq::<Result<Seq<Seq<u8>>, ScanError>>::empty();
    let mut matches: Vec<Vec<u8>> = Vec::new();
    let mut processed: usize = 0;
    let mut failed: usize = 0;
    proof {
        assert(done + results_view(rest@) =~~= orig);
        assert(spec_all_matches(done) =~~= matches.deep_view());
    }
    while rest.len() > 0
        invariant
            done + results_view(rest@) =~~= orig,
            matches.deep_view() == spec_all_matches(done),
            processed as int == spec_processed(done),
            failed as int == done.len() - spec_processed(done),
            processed <= done.len(),
            failed <= done.len(),
            done.len() + rest@.len() == orig.len(),
            orig.len() == total as int,
        decreases rest.len(),
    {
        let ghost pre_rest = results_view(rest@);
        let ghost pre_matches = matches.deep_view();
        let r = rest.remove(0);
        let ghost rv = result_view(r);
        proof {
            assert(results_view(rest@) =~~= pre_rest.drop_first());
            lemma_aggregate_push(done, rv);
            assert((done.push(rv)) + results_view(rest@) =~~= orig);
        }
        match r {
            Ok(mut ms) => {
                matches.append(&mut ms);
                processed = processed + 1;
                proof {
                    assert(matches.deep_view() =~~= spec_all_matches(done.push(rv)));
                }
            },
            Err(_) => {
                failed = failed + 1;
                proof {
                    assert(matches.deep_view() =~~= spec_all_matches(done.push(rv)));
                }
            },
        }
        proof {
            done = done.push(rv);
        }
    }
    proof {
        assert(done =~~= orig);
    }
    RunOutcome { matches, processed, failed }
}

} // verus!
