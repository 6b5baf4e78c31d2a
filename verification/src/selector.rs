//! Choosing one image out of a pool of candidates.

use vstd::prelude::*;
use crate::error::PipelineError;
use crate::error::PipelineErrorView;

verus! {

/// The candidate that the draw `draw` selects from `pool`: the only one
/// where there is one, else the one at `draw` modulo the pool's size.
pub open spec fn selected(pool: Seq<String>, draw: nat) -> Result<Seq<char>, PipelineErrorView> {
    if pool.len() == 0 {
        Err(PipelineErrorView::EmptyPool)
    } else {
        Ok(pool[(draw % pool.len()) as int]@)
    }
}

/// One draw from the process-wide random source, `rand::random::<usize>()`.
/// Nothing is promised of the number: it may be any `usize`, and two calls
/// may differ.
#[verifier::external_body]
fn random_draw() -> (r: usize) {
    rand::random::<usize>()
}

/// The candidate that a given draw selects. An empty pool has none.
pub fn select_at(pool: &Vec<String>, draw: usize) -> (r: Result<String, PipelineError>)
    ensures
        match r {
            Ok(s) => selected(pool@, draw as nat) == Ok::<Seq<char>, PipelineErrorView>(s@),
            Err(e) => selected(pool@, draw as nat) == Err::<Seq<char>, PipelineErrorView>(e@),
        },
{
    let n = pool.len();
    if n == 0 {
        Err(PipelineError::EmptyPool)
    } else {
        Ok(pool[draw % n].clone())
    }
}

/// Chooses one candidate of `pool`. A pool of one yields that one without a
/// draw; a larger pool yields the candidate that one fresh random draw
/// selects; an empty pool is an error.
pub fn select(pool: &Vec<String>) -> (r: Result<String, PipelineError>)
    ensures
        pool@.len() == 0 ==> r is Err && r->Err_0@ == PipelineErrorView::EmptyPool,
        pool@.len() == 1 ==> r is Ok && r->Ok_0@ == pool@[0]@,
        pool@.len() > 1 ==> r is Ok && exists|draw: nat|
            selected(pool@, draw) == Ok::<Seq<char>, PipelineErrorView>(r->Ok_0@),
{
    let n = pool.len();
    if n == 0 {
        Err(PipelineError::EmptyPool)
    } else if n == 1 {
        Ok(pool[0].clone())
    } else {
        let draw = random_draw();
        let r = select_at(pool, draw);
        assert(selected(pool@, draw as nat) == Ok::<Seq<char>, PipelineErrorView>(r->Ok_0@));
        r
    }
}

/// A pool of one has one answer, whatever is drawn.
pub proof fn lemma_single_candidate(pool: Seq<String>, draw: nat)
    requires
        pool.len() == 1,
    ensures
        selected(pool, draw) == Ok::<Seq<char>, PipelineErrorView>(pool[0]@),
{
}

/// Every candidate can be chosen: the draw `i` selects the candidate at `i`,
/// and so does every draw that differs from `i` by a multiple of the pool's
/// size.
pub proof fn lemma_every_candidate_reachable(pool: Seq<String>, i: nat, rounds: nat)
    requires
        i < pool.len(),
    ensures
        selected(pool, i + rounds * pool.len()) == Ok::<Seq<char>, PipelineErrorView>(
            pool[i as int]@,
        ),
{
    let n = pool.len();
    assert((i + rounds * n) % n == i) by (nonlinear_arith)
        requires
            i < n,
    ;
}

/// What is chosen is always one of the candidates.
pub proof fn lemma_selected_is_candidate(pool: Seq<String>, draw: nat)
    requires
        pool.len() > 0,
    ensures
        exists|i: int| 0 <= i < pool.len() && selected(pool, draw) == Ok::<
            Seq<char>,
            PipelineErrorView,
        >(#[trigger] pool[i]@),
{
    let i = (draw % pool.len()) as int;
    assert(selected(pool, draw) == Ok::<Seq<char>, PipelineErrorView>(pool[i]@));
}

} // verus!
