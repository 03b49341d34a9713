//! End-of-tick cleanup: every entity whose health has reached zero leaves the
//! store.
use vstd::prelude::*;
use crate::entities::Entity;
use crate::state::{EntityId, GameState, store_wf};

verus! {

/// The entry is alive.
pub open spec fn entry_alive(e: (EntityId, Entity)) -> bool {
    e.1.hp > 0
}

/// Removes every dead entity, keeping the others in order.
pub fn update(state: &mut GameState)
    requires
        old(state).wf(),
    ensures
        final(state).wf(),
        final(state).entities@ == old(state).entities@.filter(|e: (EntityId, Entity)| entry_alive(e)),
        final(state).next_entity_id == old(state).next_entity_id,
        final(state).player1 == old(state).player1,
        final(state).player2 == old(state).player2,
        final(state).rng == old(state).rng,
        final(state).cards@ == old(state).cards@,
        final(state).tick == old(state).tick,
        final(state).match_time == old(state).match_time,
        final(state).max_match_time == old(state).max_match_time,
        crate::movement::troops_apart(old(state).entities@) ==> crate::movement::troops_apart(final(state).entities@),
{
    let ghost s = state.entities@;
    let n = state.entities.len();
    let mut out: Vec<(EntityId, Entity)> = Vec::new();
    let mut i: usize = 0;
    while i < n
        invariant
            s == state.entities@,
            n == s.len(),
            state.wf(),
            i <= n,
            out@ == s.take(i as int).filter(|e: (EntityId, Entity)| entry_alive(e)),
            store_wf(out@, state.next_entity_id),
            out@.len() > 0 ==> forall|m: int| i <= m < n ==> out@.last().0.0 < #[trigger] s[m].0.0,
            forall|k: int| 0 <= k < out@.len() ==> exists|m: int| 0 <= m < i && s[m] == #[trigger] out@[k],
        decreases n - i,
    {
        proof {
            let t = s.take(i + 1);
            assert(t.drop_last() =~= s.take(i as int));
            assert(t.last() == s[i as int]);
            assert(t.len() > 0);
            reveal_with_fuel(Seq::filter, 1);
            assert(t.filter(|e: (EntityId, Entity)| entry_alive(e)) == if entry_alive(t.last()) {
                t.drop_last().filter(|e: (EntityId, Entity)| entry_alive(e)).push(t.last())
            } else {
                t.drop_last().filter(|e: (EntityId, Entity)| entry_alive(e))
            });
        }
        if state.entities[i].1.is_alive() {
            let ghost before = out@;
            out.push(state.entities[i]);
            proof {
                let o = out@;
                assert forall|k: int| 0 <= k < o.len() implies exists|m: int| 0 <= m < i + 1 && s[m] == #[trigger] o[k] by {
                    if k < before.len() {
                        assert(o[k] == before[k]);
                        let m = choose|m: int| 0 <= m < i && s[m] == before[k];
                        assert(s[m] == o[k]);
                    } else {
                        assert(s[i as int] == o[k]);
                    }
                }
                assert forall|a: int, b: int| 0 <= a < b < o.len() implies o[a].0.0 < o[b].0.0 by {
                    if b == o.len() - 1 && a < b {
                        assert(o[a] == before[a]);
                        if a < before.len() - 1 {
                            assert(before[a].0.0 < before.last().0.0);
                        }
                    } else {
                        assert(o[a] == before[a]);
                        assert(o[b] == before[b]);
                    }
                }
                assert forall|a: int| 0 <= a < o.len() implies (#[trigger] o[a]).0.0 < state.next_entity_id && o[a].1.wf() by {
                    if a < before.len() {
                        assert(o[a] == before[a]);
                    }
                }
            }
        }
        assert(out@ == s.take(i + 1).filter(|e: (EntityId, Entity)| entry_alive(e)));
        i = i + 1;
    }
    proof {
        assert(s.take(n as int) =~= s);
    }
    proof {
        if crate::movement::troops_apart(s) {
            let o = out@;
            assert forall|x: int, y: int| 0 <= x < y < o.len() implies o[x] != o[y] by {
                assert(o[x].0.0 < o[y].0.0);
            }
            assert forall|k: int| 0 <= k < o.len() implies crate::movement::in_store(s, #[trigger] o[k]) by {
                let m = choose|m: int| 0 <= m < i && s[m] == o[k];
                assert(0 <= m < s.len() && s[m] == o[k]);
            }
            crate::movement::lemma_selection_keeps_apart(s, o);
        }
    }
    state.entities = out;
}

} // verus!
