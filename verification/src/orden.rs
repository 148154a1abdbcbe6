//! The order in which positions of the list are shown: by the order of the
//! tasks they hold and, where two tasks tie, by position.

use crate::comparacion::{antes, empate};
use crate::tarea::{vistas, Tarea, TareaView};
use vstd::prelude::*;
use vstd::relations::{sorted_by, total_ordering};
use vstd::seq_lib::*;
use vstd::string::*;

verus! {

/// Position `a` is shown no later than position `b`. Positions count from 0
/// here; one outside the list comes after all those inside it.
pub open spec fn precede(tareas: Seq<TareaView>, a: usize, b: usize) -> bool {
    if a < tareas.len() && b < tareas.len() {
        antes(tareas[a as int], tareas[b as int]) || (empate(tareas[a as int], tareas[b as int])
            && a <= b)
    } else if a < tareas.len() {
        true
    } else if b < tareas.len() {
        false
    } else {
        a <= b
    }
}

/// `precede` as a relation on positions.
pub open spec fn orden_de(tareas: Seq<TareaView>) -> spec_fn(usize, usize) -> bool {
    |a: usize, b: usize| precede(tareas, a, b)
}

/// The positions below `n`, in rising order, of the tasks whose parent is
/// `padre`; with `None`, of the tasks at the top level.
pub open spec fn hijas(tareas: Seq<TareaView>, padre: Option<Seq<char>>, n: nat) -> Seq<usize>
    decreases n,
{
    if n == 0 {
        Seq::empty()
    } else {
        let previas = hijas(tareas, padre, (n - 1) as nat);
        if n <= tareas.len() && tareas[n - 1].parent_id == padre {
            previas.push((n - 1) as usize)
        } else {
            previas
        }
    }
}

/// The positions of the tasks whose parent is `padre`, in the order in which
/// they are shown.
pub open spec fn mostradas(tareas: Seq<TareaView>, padre: Option<Seq<char>>) -> Seq<usize> {
    hijas(tareas, padre, tareas.len()).sort_by(orden_de(tareas))
}

/// The order of positions is total: any two positions compare, and two that
/// precede each other are one.
pub proof fn orden_de_total(tareas: Seq<TareaView>)
    ensures
        total_ordering(orden_de(tareas)),
{
    let r = orden_de(tareas);
    assert forall|a: usize, b: usize| #[trigger] r(a, b) && r(b, a) implies a == b by {}
    assert forall|a: usize, b: usize, c: usize| #[trigger] r(a, b) && #[trigger] r(b, c) implies r(
        a,
        c,
    ) by {}
    assert forall|a: usize, b: usize| #[trigger] r(a, b) || #[trigger] r(b, a) by {}
    assert forall|a: usize| #[trigger] r(a, a) by {}
}

/// What `hijas` holds: exactly the positions below `n` whose task has the
/// parent `padre`, each once and in rising order.
pub proof fn hijas_contenido(tareas: Seq<TareaView>, padre: Option<Seq<char>>, n: nat)
    requires
        n <= tareas.len() <= usize::MAX,
    ensures
        forall|k: int|
            0 <= k < hijas(tareas, padre, n).len() ==> (#[trigger] hijas(tareas, padre, n)[k]) < n
                && tareas[hijas(tareas, padre, n)[k] as int].parent_id == padre,
        forall|i: int, j: int|
            0 <= i < j < hijas(tareas, padre, n).len() ==> hijas(tareas, padre, n)[i] < hijas(
                tareas,
                padre,
                n,
            )[j],
        forall|p: usize|
            p < n && tareas[p as int].parent_id == padre ==> hijas(tareas, padre, n).contains(p),
    decreases n,
{
    if n > 0 {
        hijas_contenido(tareas, padre, (n - 1) as nat);
        let previas = hijas(tareas, padre, (n - 1) as nat);
        let todas = hijas(tareas, padre, n);
        assert forall|p: usize| p < n && tareas[p as int].parent_id == padre implies todas.contains(
            p,
        ) by {
            if p < n - 1 {
                assert(previas.contains(p));
                let k = choose|k: int| 0 <= k < previas.len() && previas[k] == p;
                assert(todas[k] == p);
            } else {
                assert(todas[todas.len() - 1] == p);
            }
        }
    }
}

/// Whether position `a` is shown no later than position `b`.
pub fn precede_en(tareas: &Vec<Tarea>, a: usize, b: usize) -> (r: bool)
    requires
        a < tareas.len(),
        b < tareas.len(),
    ensures
        r == precede(vistas(tareas@), a, b),
{
    let x = &tareas[a];
    let y = &tareas[b];
    if x.completada != y.completada {
        !x.completada
    } else if x.prioridad != y.prioridad {
        x.prioridad < y.prioridad
    } else {
        a <= b
    }
}

/// The given positions in the order in which they are shown.
pub fn ordenar_posiciones(tareas: &Vec<Tarea>, posiciones: &Vec<usize>) -> (r: Vec<usize>)
    requires
        forall|k: int| 0 <= k < posiciones.len() ==> posiciones[k] < tareas.len(),
    ensures
        r@ == posiciones@.sort_by(orden_de(vistas(tareas@))),
        r.len() == posiciones.len(),
        forall|k: int| 0 <= k < r.len() ==> r[k] < tareas.len(),
{
    let ghost vs = vistas(tareas@);
    let ghost leq = orden_de(vs);
    let mut r: Vec<usize> = Vec::new();
    let mut i: usize = 0;
    proof {
        orden_de_total(vs);
        assert(posiciones@.take(0) =~= Seq::<usize>::empty());
    }
    while i < posiciones.len()
        invariant
            i <= posiciones.len(),
            vs == vistas(tareas@),
            leq == orden_de(vs),
            total_ordering(leq),
            forall|k: int| 0 <= k < posiciones.len() ==> posiciones[k] < tareas.len(),
            forall|k: int| 0 <= k < r.len() ==> r[k] < tareas.len(),
            r.len() == i,
            sorted_by(r@, leq),
            r@.to_multiset() == posiciones@.take(i as int).to_multiset(),
        decreases posiciones.len() - i,
    {
        let x: usize = posiciones[i];
        let mut j: usize = r.len();
        while j > 0 && !precede_en(tareas, r[j - 1], x)
            invariant
                j <= r.len(),
                x < tareas.len(),
                vs == vistas(tareas@),
                leq == orden_de(vs),
                total_ordering(leq),
                forall|k: int| 0 <= k < r.len() ==> r[k] < tareas.len(),
                forall|k: int| j <= k < r.len() ==> leq(x, #[trigger] r[k]),
            decreases j,
        {
            j -= 1;
        }
        proof {
            assert forall|k: int| 0 <= k < j implies leq(#[trigger] r@[k], x) by {
                assert(leq(r@[j - 1], x));
                if k < j - 1 {
                    assert(leq(r@[k], r@[j - 1]));
                }
            }
            to_multiset_insert(r@, j as int, x);
            to_multiset_build(posiciones@.take(i as int), x);
            assert(posiciones@.take(i + 1) =~= posiciones@.take(i as int).push(x));
        }
        r.insert(j, x);
        i += 1;
    }
    proof {
        assert(posiciones@.take(i as int) =~= posiciones@);
        posiciones@.lemma_sort_by_ensures(leq);
        lemma_sorted_unique(r@, posiciones@.sort_by(leq), leq);
    }
    r
}

/// The positions, in rising order, of the tasks whose parent is `padre`;
/// with `None`, of the tasks at the top level.
pub fn posiciones_hijas(tareas: &Vec<Tarea>, padre: Option<&String>) -> (r: Vec<usize>)
    ensures
        r@ == hijas(
            vistas(tareas@),
            match padre {
                Some(p) => Some(p@),
                None => None,
            },
            tareas.len() as nat,
        ),
        forall|k: int| 0 <= k < r.len() ==> r[k] < tareas.len(),
{
    let ghost vs = vistas(tareas@);
    let ghost buscado: Option<Seq<char>> = match padre {
        Some(p) => Some(p@),
        None => None,
    };
    let mut r: Vec<usize> = Vec::new();
    let mut i: usize = 0;
    while i < tareas.len()
        invariant
            i <= tareas.len(),
            vs == vistas(tareas@),
            buscado == match padre {
                Some(p) => Some(p@),
                None => None,
            },
            r@ == hijas(vs, buscado, i as nat),
            forall|k: int| 0 <= k < r.len() ==> r[k] < tareas.len(),
        decreases tareas.len() - i,
    {
        let coincide = match (&tareas[i].parent_id, padre) {
            (None, None) => true,
            (Some(p), Some(q)) => *p == *q,
            _ => false,
        };
        assert(coincide == (vs[i as int].parent_id == buscado));
        if coincide {
            r.push(i);
        }
        i += 1;
    }
    r
}

} // verus!
