use vstd::prelude::*;

use crate::middleware::{Middleware, Step, M};
use crate::model::{run_chain, run_mw, run_steps, StateModel};

verus! {

/// A step script that only appends notes.
pub open spec fn all_notes(ss: Seq<Step>) -> bool {
    forall|i: int| 0 <= i < ss.len() ==> ss[i] is Note
}

/// The notes appended by a note-only script, in order.
pub open spec fn notes_of(ss: Seq<Step>) -> Seq<Seq<char>> {
    Seq::new(ss.len(), |i: int| ss[i]->Note_0@)
}

/// A note-only script succeeds and appends exactly its notes.
pub proof fn lemma_run_steps_notes(ss: Seq<Step>, st: StateModel)
    requires
        all_notes(ss),
    ensures
        run_steps(ss, st).failure is None,
        run_steps(ss, st).state == (StateModel { notes: st.notes + notes_of(ss), ..st }),
    decreases ss.len(),
{
    if ss.len() == 0 {
        assert(st.notes + notes_of(ss) =~= st.notes);
    } else {
        let rest = ss.subrange(1, ss.len() as int);
        let st1 = StateModel { notes: st.notes.push(ss[0]->Note_0@), ..st };
        lemma_run_steps_notes(rest, st1);
        assert(st1.notes + notes_of(rest) =~= st.notes + notes_of(ss));
    }
}

/// A middleware that only takes notes and passes control on: a scripted
/// handler that calls its continuation, with note-only scripts.
pub open spec fn notes_passthrough(m: Middleware) -> bool {
    m matches Middleware::M(w) && w.call_next && all_notes(w.pre@) && all_notes(w.post@)
}

/// The notes of all `pre` scripts of a chain, in chain order.
pub open spec fn pres_concat(tail: Seq<Middleware>) -> Seq<Seq<char>>
    decreases tail.len(),
{
    if tail.len() == 0 {
        Seq::empty()
    } else {
        notes_of(tail[0]->M_0.pre@) + pres_concat(tail.subrange(1, tail.len() as int))
    }
}

/// The notes of all `post` scripts of a chain, in reverse chain order.
pub open spec fn posts_concat_rev(tail: Seq<Middleware>) -> Seq<Seq<char>>
    decreases tail.len(),
{
    if tail.len() == 0 {
        Seq::empty()
    } else {
        posts_concat_rev(tail.subrange(1, tail.len() as int)) + notes_of(tail[0]->M_0.post@)
    }
}

/// Law (onion order): when every middleware of the chain takes notes and
/// calls its continuation, the run succeeds and the notes read as all the
/// `pre` scripts top-down in chain order followed by all the `post`
/// scripts bottom-up in reverse order; nothing else changes.
pub proof fn lemma_onion_order(tail: Seq<Middleware>, st: StateModel)
    requires
        forall|i: int| 0 <= i < tail.len() ==> notes_passthrough(#[trigger] tail[i]),
    ensures
        run_chain(tail, st).failure is None,
        run_chain(tail, st).state == (StateModel {
            notes: st.notes + pres_concat(tail) + posts_concat_rev(tail),
            ..st
        }),
    decreases tail.len(),
{
    if tail.len() == 0 {
        assert(st.notes + pres_concat(tail) + posts_concat_rev(tail) =~= st.notes);
    } else {
        assert(notes_passthrough(tail[0]));
        let w = tail[0]->M_0;
        let rest = tail.subrange(1, tail.len() as int);
        lemma_run_steps_notes(w.pre@, st);
        let st1 = run_steps(w.pre@, st).state;
        assert(forall|i: int| 0 <= i < rest.len() ==> notes_passthrough(#[trigger] rest[i]))
            by {
            assert(forall|i: int| 0 <= i < rest.len() ==> rest[i] == tail[i + 1]);
        }
        lemma_onion_order(rest, st1);
        let st2 = run_chain(rest, st1).state;
        lemma_run_steps_notes(w.post@, st2);
        assert(st.notes + notes_of(w.pre@) + pres_concat(rest) + posts_concat_rev(rest)
            + notes_of(w.post@) =~= st.notes + pres_concat(tail) + posts_concat_rev(tail));
    }
}

/// Law (short circuit): a scripted handler that does not call its
/// continuation makes the rest of the chain irrelevant — running it in
/// front of any chain equals running it alone.
pub proof fn lemma_short_circuit(w: M, rest: Seq<Middleware>, st: StateModel)
    requires
        !w.call_next,
    ensures
        run_chain(seq![Middleware::M(w)] + rest, st) == run_chain(seq![Middleware::M(w)], st),
{
    let one: Seq<Middleware> = seq![Middleware::M(w)];
    let both = one + rest;
    assert(both[0] == Middleware::M(w));
    assert(both.subrange(1, both.len() as int) =~= rest);
    assert(one.subrange(1, 1) =~= Seq::<Middleware>::empty());
}

/// Law (failure interception): a handler that wraps its continuation with
/// a recovery swallows any failure from below and rewrites the response to
/// the fixed recovery status and body; when nothing below fails it is
/// transparent.
pub proof fn lemma_failure_interception(w: M, rest: Seq<Middleware>, st: StateModel)
    requires
        w.pre@.len() == 0,
        w.post@.len() == 0,
        w.call_next,
        w.recover is Some,
    ensures
        run_mw(Middleware::M(w), rest, st).failure is None,
        run_chain(rest, st).failure is Some ==> run_mw(Middleware::M(w), rest, st).state
            == (StateModel {
            status: w.recover->0.status,
            body: w.recover->0.body@,
            ..run_chain(rest, st).state
        }),
        run_chain(rest, st).failure is None ==> run_mw(Middleware::M(w), rest, st).state
            == run_chain(rest, st).state,
{
}

} // verus!
