//! The order in which tasks are shown: open tasks before completed ones, and
//! among tasks of one state the lower priority first.

use crate::tarea::{Tarea, TareaView};
use std::cmp::Ordering;
use vstd::prelude::*;

verus! {

/// `a` comes strictly before `b`.
pub open spec fn antes(a: TareaView, b: TareaView) -> bool {
    (!a.completada && b.completada) || (a.completada == b.completada && a.prioridad < b.prioridad)
}

/// Neither of `a` and `b` comes before the other.
pub open spec fn empate(a: TareaView, b: TareaView) -> bool {
    a.completada == b.completada && a.prioridad == b.prioridad
}

impl Tarea {
    /// Compares two tasks by state, then by priority.
    pub fn cmp(&self, other: &Tarea) -> (r: Ordering)
        ensures
            (r == Ordering::Less) == antes(self@, other@),
            (r == Ordering::Equal) == empate(self@, other@),
            (r == Ordering::Greater) == antes(other@, self@),
    {
        if self.completada != other.completada {
            if other.completada {
                Ordering::Less
            } else {
                Ordering::Greater
            }
        } else if self.prioridad < other.prioridad {
            Ordering::Less
        } else if self.prioridad > other.prioridad {
            Ordering::Greater
        } else {
            Ordering::Equal
        }
    }

    /// The same comparison, for callers that ask for a partial order: any two
    /// tasks compare.
    pub fn partial_cmp(&self, other: &Tarea) -> (r: Option<Ordering>)
        ensures
            r.is_some(),
            (r == Some(Ordering::Less)) == antes(self@, other@),
            (r == Some(Ordering::Equal)) == empate(self@, other@),
            (r == Some(Ordering::Greater)) == antes(other@, self@),
    {
        Some(self.cmp(other))
    }
}

/// Of any two tasks exactly one holds: the first comes before the second, they
/// tie, or the second comes before the first.
pub proof fn orden_total(a: TareaView, b: TareaView)
    ensures
        antes(a, b) || empate(a, b) || antes(b, a),
        !(antes(a, b) && empate(a, b)),
        !(antes(a, b) && antes(b, a)),
        !(empate(a, b) && antes(b, a)),
{
}

/// An open task comes before a completed one, whatever their priorities.
pub proof fn abierta_antes_de_completada(a: TareaView, b: TareaView)
    requires
        !a.completada,
        b.completada,
    ensures
        antes(a, b),
        !antes(b, a),
        !empate(a, b),
{
}

/// Coming before is transitive, and so is tying.
pub proof fn orden_transitivo(a: TareaView, b: TareaView, c: TareaView)
    ensures
        antes(a, b) && antes(b, c) ==> antes(a, c),
        empate(a, b) && empate(b, c) ==> empate(a, c),
        antes(a, b) && empate(b, c) ==> antes(a, c),
        empate(a, b) && antes(b, c) ==> antes(a, c),
{
}

} // verus!
