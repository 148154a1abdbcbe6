//! What holds of the list's operations and of its display, whatever the list.

use crate::comparacion::{antes, empate};
use crate::orden::{hijas, hijas_contenido, mostradas, orden_de, orden_de_total};
use crate::tarea::{linea, tarea_nueva, TareaView};
use crate::tareas::{
    cargadas, lineas_de, listado, orden_completo, posicion_valida, reordenadas, subarbol,
    subtarea_nueva, tras_completar,
};
use vstd::prelude::*;
use vstd::seq_lib::*;

verus! {

/// Completing a task a second time changes nothing: after the first time the
/// task is completed and holds what it held, every other task is as it was,
/// and the second time gives the same list.
pub proof fn completar_idempotente(tareas: Seq<TareaView>, id: usize)
    requires
        posicion_valida(id, tareas.len()),
    ensures
        tras_completar(tras_completar(tareas, id), id) == tras_completar(tareas, id),
        tras_completar(tareas, id).len() == tareas.len(),
        tras_completar(tareas, id)[id - 1] == (TareaView { completada: true, ..tareas[id - 1] }),
        forall|k: int|
            0 <= k < tareas.len() && k != id - 1 ==> #[trigger] tras_completar(tareas, id)[k]
                == tareas[k],
{
    assert(tras_completar(tras_completar(tareas, id), id) =~= tras_completar(tareas, id));
}

/// A position that names no task leaves the list as it is.
pub proof fn completar_fuera_de_rango(tareas: Seq<TareaView>, id: usize)
    requires
        !posicion_valida(id, tareas.len()),
    ensures
        tras_completar(tareas, id) == tareas,
{
}

/// A task that was added is the last of the list, open, without priority and
/// without tags, and the tasks before it are as they were.
pub proof fn agregar_crece_en_una(tareas: Seq<TareaView>, id: Seq<char>, descripcion: Seq<char>)
    ensures
        tareas.push(tarea_nueva(id, descripcion)).len() == tareas.len() + 1,
        tareas.push(tarea_nueva(id, descripcion)).drop_last() == tareas,
        !tareas.push(tarea_nueva(id, descripcion)).last().completada,
        tareas.push(tarea_nueva(id, descripcion)).last().prioridad == 0,
        tareas.push(tarea_nueva(id, descripcion)).last().etiquetas.len() == 0,
        tareas.push(tarea_nueva(id, descripcion)).last().parent_id.is_none(),
        tareas.push(tarea_nueva(id, descripcion)).last().descripcion == descripcion,
{
    assert(tareas.push(tarea_nueva(id, descripcion)).drop_last() =~= tareas);
}

/// The order of display is a stable sort of the subtasks: it holds the same
/// positions, no task is shown after one that it comes before, and tasks that
/// tie are shown in the order of their positions.
pub proof fn mostradas_orden_estable(tareas: Seq<TareaView>, padre: Option<Seq<char>>)
    requires
        tareas.len() <= usize::MAX,
    ensures
        mostradas(tareas, padre).to_multiset() == hijas(tareas, padre, tareas.len()).to_multiset(),
        mostradas(tareas, padre).len() == hijas(tareas, padre, tareas.len()).len(),
        forall|k: int|
            0 <= k < mostradas(tareas, padre).len() ==> (#[trigger] mostradas(tareas, padre)[k])
                < tareas.len() && tareas[mostradas(tareas, padre)[k] as int].parent_id == padre,
        forall|i: int, j: int|
            0 <= i < j < mostradas(tareas, padre).len() ==> !antes(
                tareas[#[trigger] mostradas(tareas, padre)[j] as int],
                tareas[#[trigger] mostradas(tareas, padre)[i] as int],
            ),
        forall|i: int, j: int|
            0 <= i < j < mostradas(tareas, padre).len() && empate(
                tareas[#[trigger] mostradas(tareas, padre)[i] as int],
                tareas[#[trigger] mostradas(tareas, padre)[j] as int],
            ) ==> mostradas(tareas, padre)[i] < mostradas(tareas, padre)[j],
{
    let h = hijas(tareas, padre, tareas.len());
    let m = mostradas(tareas, padre);
    let leq = orden_de(tareas);
    orden_de_total(tareas);
    h.lemma_sort_by_ensures(leq);
    hijas_contenido(tareas, padre, tareas.len());
    h.to_multiset_ensures();
    m.to_multiset_ensures();
    assert forall|k: int| 0 <= k < m.len() implies (#[trigger] m[k]) < tareas.len()
        && tareas[m[k] as int].parent_id == padre by {
        assert(m.contains(m[k]));
        assert(h.contains(m[k]));
    }
    assert forall|i: int, j: int| 0 <= i < j < m.len() implies !antes(
        tareas[#[trigger] m[j] as int],
        tareas[#[trigger] m[i] as int],
    ) by {
        assert(leq(m[i], m[j]));
    }
    assert forall|i: int, j: int|
        0 <= i < j < m.len() && empate(
            tareas[#[trigger] m[i] as int],
            tareas[#[trigger] m[j] as int],
        ) implies m[i] < m[j] by {
        assert(leq(m[i], m[j]));
        if m[i] == m[j] {
            assert(h.to_multiset().count(m[i]) >= 2) by {
                lemma_conteo_doble(m, i, j);
            }
            lemma_sin_repetir(h, m[i]);
        }
    }
}

proof fn lemma_conteo_doble(s: Seq<usize>, i: int, j: int)
    requires
        0 <= i < j < s.len(),
        s[i] == s[j],
    ensures
        s.to_multiset().count(s[i]) >= 2,
    decreases s.len(),
{
    broadcast use vstd::seq_lib::group_to_multiset_ensures;

    let ultimo = s.last();
    let resto = s.drop_last();
    assert(s =~= resto.push(ultimo));
    if j == s.len() - 1 {
        assert(resto.contains(s[i])) by {
            assert(resto[i] == s[i]);
        }
        assert(resto.to_multiset().count(s[i]) > 0);
    } else {
        lemma_conteo_doble(resto, i, j);
    }
}

proof fn lemma_sin_repetir(s: Seq<usize>, x: usize)
    requires
        forall|i: int, j: int| 0 <= i < j < s.len() ==> s[i] < s[j],
    ensures
        s.to_multiset().count(x) <= 1,
    decreases s.len(),
{
    broadcast use vstd::seq_lib::group_to_multiset_ensures;

    if s.len() > 0 {
        let ultimo = s.last();
        let resto = s.drop_last();
        assert(s =~= resto.push(ultimo));
        lemma_sin_repetir(resto, x);
        if ultimo == x {
            if resto.to_multiset().count(x) > 0 {
                assert(resto.contains(x));
                let k = choose|k: int| 0 <= k < resto.len() && resto[k] == x;
                assert(s[k] < s[s.len() - 1]);
            }
        }
    }
}

/// A task without subtasks adds no line below its own, however deep the
/// display may go.
pub proof fn sin_subtareas_sin_lineas(
    tareas: Seq<TareaView>,
    padre: Seq<char>,
    indent: nat,
    fondo: nat,
)
    requires
        tareas.len() <= usize::MAX,
        forall|k: int| 0 <= k < tareas.len() ==> (#[trigger] tareas[k]).parent_id != Some(padre),
    ensures
        subarbol(tareas, padre, indent, fondo) == Seq::<Seq<char>>::empty(),
{
    let h = hijas(tareas, Some(padre), tareas.len());
    hijas_contenido(tareas, Some(padre), tareas.len());
    if h.len() > 0 {
        assert(tareas[h[0] as int].parent_id == Some(padre));
    }
    mostradas_orden_estable(tareas, Some(padre));
}

/// `rango` numbers the tasks, each below the number of tasks, so that every
/// subtask has a greater number than its parent: no chain of subtasks comes
/// back to where it began. The order in which the tasks were made is such a
/// numbering.
pub open spec fn sin_ciclos(tareas: Seq<TareaView>, rango: Seq<nat>) -> bool {
    &&& rango.len() == tareas.len()
    &&& forall|i: int| 0 <= i < rango.len() ==> (#[trigger] rango[i]) < tareas.len()
    &&& forall|i: int, j: int|
        0 <= i < tareas.len() && 0 <= j < tareas.len() && (#[trigger] tareas[i]).parent_id == Some(
            (#[trigger] tareas[j]).id,
        ) ==> rango[j] < rango[i]
}

/// `id` is fresh for the list: no task names it as its parent.
pub open spec fn identificador_libre(tareas: Seq<TareaView>, id: Seq<char>) -> bool {
    forall|k: int| 0 <= k < tareas.len() ==> (#[trigger] tareas[k]).parent_id != Some(id)
}

/// No two tasks of the list have the same identifier.
pub open spec fn identificadores_distintos(tareas: Seq<TareaView>) -> bool {
    forall|i: int, j: int|
        0 <= i < j < tareas.len() ==> (#[trigger] tareas[i]).id != (#[trigger] tareas[j]).id
}

/// `id` is the identifier of no task of the list.
pub open spec fn identificador_nuevo_en(tareas: Seq<TareaView>, id: Seq<char>) -> bool {
    forall|k: int| 0 <= k < tareas.len() ==> (#[trigger] tareas[k]).id != id
}

/// A task added under an identifier that no task has keeps the identifiers
/// distinct, at the top level and below a parent alike.
pub proof fn agregar_mantiene_identificadores(tareas: Seq<TareaView>, nueva: TareaView)
    requires
        identificadores_distintos(tareas),
        identificador_nuevo_en(tareas, nueva.id),
    ensures
        identificadores_distintos(tareas.push(nueva)),
{
}

/// The empty list has no cycle.
pub proof fn vacia_sin_ciclos()
    ensures
        sin_ciclos(Seq::<TareaView>::empty(), Seq::<nat>::empty()),
{
}

/// Adding a task under a fresh identifier makes no cycle: the new task gets
/// the greatest number.
pub proof fn agregar_mantiene_sin_ciclos(
    tareas: Seq<TareaView>,
    rango: Seq<nat>,
    id: Seq<char>,
    descripcion: Seq<char>,
)
    requires
        sin_ciclos(tareas, rango),
        identificador_libre(tareas, id),
    ensures
        sin_ciclos(tareas.push(tarea_nueva(id, descripcion)), rango.push(tareas.len())),
{
}

/// Adding a subtask under a fresh identifier, other than its parent's, makes
/// no cycle: the new task gets the greatest number.
pub proof fn agregar_subtarea_mantiene_sin_ciclos(
    tareas: Seq<TareaView>,
    rango: Seq<nat>,
    parent_pos_id: usize,
    id: Seq<char>,
    descripcion: Seq<char>,
)
    requires
        sin_ciclos(tareas, rango),
        posicion_valida(parent_pos_id, tareas.len()),
        identificador_libre(tareas, id),
        id != tareas[parent_pos_id - 1].id,
    ensures
        sin_ciclos(
            tareas.push(subtarea_nueva(id, tareas[parent_pos_id - 1].id, descripcion)),
            rango.push(tareas.len()),
        ),
{
}

/// Completing a task makes no cycle.
pub proof fn completar_mantiene_sin_ciclos(tareas: Seq<TareaView>, rango: Seq<nat>, id: usize)
    requires
        sin_ciclos(tareas, rango),
    ensures
        sin_ciclos(tras_completar(tareas, id), rango),
{
}

/// The numbers of the tasks after the list has been sorted: each task keeps
/// its own.
pub open spec fn rango_reordenado(tareas: Seq<TareaView>, rango: Seq<nat>) -> Seq<nat> {
    Seq::new(tareas.len(), |k: int| rango[orden_completo(tareas)[k] as int])
}

/// Sorting the list moves the tasks and changes none: the sorted list holds
/// the task of each position exactly once, no task stands after one that it
/// comes before, and tasks that tie keep their order.
pub proof fn reordenadas_orden_estable(tareas: Seq<TareaView>)
    requires
        tareas.len() <= usize::MAX,
    ensures
        reordenadas(tareas).len() == tareas.len(),
        orden_completo(tareas).len() == tareas.len(),
        orden_completo(tareas).to_multiset() == Seq::new(
            tareas.len(),
            |i: int| i as usize,
        ).to_multiset(),
        forall|k: int|
            0 <= k < tareas.len() ==> (#[trigger] orden_completo(tareas)[k]) < tareas.len(),
        forall|i: int, j: int|
            0 <= i < j < tareas.len() ==> !antes(
                #[trigger] reordenadas(tareas)[j],
                #[trigger] reordenadas(tareas)[i],
            ),
        forall|i: int, j: int|
            0 <= i < j < tareas.len() && empate(
                #[trigger] reordenadas(tareas)[i],
                #[trigger] reordenadas(tareas)[j],
            ) ==> orden_completo(tareas)[i] <= orden_completo(tareas)[j],
{
    let todas = Seq::new(tareas.len(), |i: int| i as usize);
    let orden = orden_completo(tareas);
    let leq = orden_de(tareas);
    orden_de_total(tareas);
    todas.lemma_sort_by_ensures(leq);
    todas.to_multiset_ensures();
    orden.to_multiset_ensures();
    assert forall|k: int| 0 <= k < tareas.len() implies (#[trigger] orden[k]) < tareas.len() by {
        assert(orden.contains(orden[k]));
        assert(todas.contains(orden[k]));
    }
    assert forall|i: int, j: int| 0 <= i < j < tareas.len() implies !antes(
        #[trigger] reordenadas(tareas)[j],
        #[trigger] reordenadas(tareas)[i],
    ) by {
        assert(leq(orden[i], orden[j]));
    }
    assert forall|i: int, j: int|
        0 <= i < j < tareas.len() && empate(
            #[trigger] reordenadas(tareas)[i],
            #[trigger] reordenadas(tareas)[j],
        ) implies orden[i] <= orden[j] by {
        assert(leq(orden[i], orden[j]));
    }
}

/// Sorting the list makes no cycle.
pub proof fn reordenar_mantiene_sin_ciclos(tareas: Seq<TareaView>, rango: Seq<nat>)
    requires
        tareas.len() <= usize::MAX,
        sin_ciclos(tareas, rango),
    ensures
        sin_ciclos(reordenadas(tareas), rango_reordenado(tareas, rango)),
{
    reordenadas_orden_estable(tareas);
    let orden = orden_completo(tareas);
    let nuevas = reordenadas(tareas);
    let nuevo = rango_reordenado(tareas, rango);
    assert forall|i: int, j: int|
        0 <= i < nuevas.len() && 0 <= j < nuevas.len() && (#[trigger] nuevas[i]).parent_id == Some(
            (#[trigger] nuevas[j]).id,
        ) implies nuevo[j] < nuevo[i] by {
        assert(tareas[orden[i] as int].parent_id == Some(tareas[orden[j] as int].id));
    }
}

/// In a list without cycles, the lines below a task are the same for every
/// depth that is at least the number of tasks less the task's own number: the
/// display follows each chain of subtasks to its end.
pub proof fn subarbol_completo(
    tareas: Seq<TareaView>,
    rango: Seq<nat>,
    j: int,
    indent: nat,
    fondo: nat,
    otro: nat,
)
    requires
        tareas.len() <= usize::MAX,
        sin_ciclos(tareas, rango),
        0 <= j < tareas.len(),
        fondo >= tareas.len() - rango[j],
        otro >= tareas.len() - rango[j],
    ensures
        subarbol(tareas, tareas[j].id, indent, fondo) == subarbol(
            tareas,
            tareas[j].id,
            indent,
            otro,
        ),
    decreases tareas.len() - rango[j], 0nat,
{
    let m = mostradas(tareas, Some(tareas[j].id));
    mostradas_orden_estable(tareas, Some(tareas[j].id));
    lineas_completas(
        tareas,
        rango,
        m,
        rango[j] as int,
        indent,
        (fondo - 1) as nat,
        (otro - 1) as nat,
    );
}

/// In a list without cycles, the lines that show tasks whose numbers are
/// above `nivel` are the same for every depth that is at least the number of
/// tasks less `nivel` and one.
pub proof fn lineas_completas(
    tareas: Seq<TareaView>,
    rango: Seq<nat>,
    orden: Seq<usize>,
    nivel: int,
    indent: nat,
    fondo: nat,
    otro: nat,
)
    requires
        tareas.len() <= usize::MAX,
        sin_ciclos(tareas, rango),
        -1 <= nivel < tareas.len(),
        forall|k: int|
            0 <= k < orden.len() ==> (#[trigger] orden[k]) < tareas.len() && nivel
                < rango[orden[k] as int],
        fondo >= tareas.len() - nivel - 1,
        otro >= tareas.len() - nivel - 1,
    ensures
        lineas_de(tareas, orden, indent, fondo) == lineas_de(tareas, orden, indent, otro),
    decreases tareas.len() - nivel - 1, 1 + orden.len(),
{
    if orden.len() > 0 {
        let p = orden[0];
        subarbol_completo(tareas, rango, p as int, indent + 1, fondo, otro);
        assert forall|k: int| 0 <= k < orden.drop_first().len() implies (
        #[trigger] orden.drop_first()[k]) < tareas.len() && nivel < rango[orden.drop_first()[k] as int] by {
            assert(orden.drop_first()[k] == orden[k + 1]);
        }
        lineas_completas(tareas, rango, orden.drop_first(), nivel, indent, fondo, otro);
    }
}

/// In a list without cycles, the display of the whole list loses no line to
/// its limit on depth: a greater limit gives the same lines.
pub proof fn listado_completo(tareas: Seq<TareaView>, rango: Seq<nat>, fondo: nat)
    requires
        tareas.len() <= usize::MAX,
        sin_ciclos(tareas, rango),
        fondo >= tareas.len(),
    ensures
        listado(tareas) == lineas_de(tareas, mostradas(tareas, None), 0, fondo),
{
    mostradas_orden_estable(tareas, None);
    lineas_completas(tareas, rango, mostradas(tareas, None), -1, 0, tareas.len(), fondo);
}

/// The first line below a task with subtasks shows the subtask that the order
/// of display puts first, one level deeper than its parent's line would be.
pub proof fn subarbol_empieza_por_la_primera(
    tareas: Seq<TareaView>,
    padre: Seq<char>,
    indent: nat,
    fondo: nat,
)
    requires
        fondo > 0,
        mostradas(tareas, Some(padre)).len() > 0,
    ensures
        subarbol(tareas, padre, indent, fondo).len() > 0,
        subarbol(tareas, padre, indent, fondo)[0] == linea(
            tareas[mostradas(tareas, Some(padre))[0] as int],
            (mostradas(tareas, Some(padre))[0] + 1) as nat,
            indent,
        ),
{
}

/// The lines below the line of the task at position `p`, when that line is
/// `indent` levels deep.
pub open spec fn debajo(tareas: Seq<TareaView>, p: usize, indent: nat, fondo: nat) -> Seq<
    Seq<char>,
> {
    subarbol(tareas, tareas[p as int].id, indent + 1, fondo)
}

/// Where, among the lines that show the tasks at the positions `orden`, the
/// line of the `k`-th of them stands: after the lines of those before it and
/// of their subtasks.
pub open spec fn inicio_bloque(
    tareas: Seq<TareaView>,
    orden: Seq<usize>,
    k: nat,
    indent: nat,
    fondo: nat,
) -> int
    decreases k,
{
    if k == 0 || orden.len() == 0 {
        0
    } else {
        1 + debajo(tareas, orden[0], indent, fondo).len() + inicio_bloque(
            tareas,
            orden.drop_first(),
            (k - 1) as nat,
            indent,
            fondo,
        )
    }
}

/// Each task that is shown has its own line at `indent`, right after the
/// lines of the tasks before it; the lines of its subtasks follow at once,
/// and the next task's line comes after them.
pub proof fn bloque_de_cada_tarea(
    tareas: Seq<TareaView>,
    orden: Seq<usize>,
    k: nat,
    indent: nat,
    fondo: nat,
)
    requires
        k < orden.len(),
    ensures
        0 <= inicio_bloque(tareas, orden, k, indent, fondo),
        inicio_bloque(tareas, orden, k, indent, fondo) + 1 + debajo(
            tareas,
            orden[k as int],
            indent,
            fondo,
        ).len() <= lineas_de(tareas, orden, indent, fondo).len(),
        lineas_de(tareas, orden, indent, fondo)[inicio_bloque(tareas, orden, k, indent, fondo) as int]
            == linea(tareas[orden[k as int] as int], (orden[k as int] + 1) as nat, indent),
        lineas_de(tareas, orden, indent, fondo).subrange(
            inicio_bloque(tareas, orden, k, indent, fondo) + 1,
            inicio_bloque(tareas, orden, k, indent, fondo) + 1 + debajo(
                tareas,
                orden[k as int],
                indent,
                fondo,
            ).len(),
        ) == debajo(tareas, orden[k as int], indent, fondo),
        inicio_bloque(tareas, orden, k + 1, indent, fondo) == inicio_bloque(
            tareas,
            orden,
            k,
            indent,
            fondo,
        ) + 1 + debajo(tareas, orden[k as int], indent, fondo).len(),
    decreases k,
{
    let l = lineas_de(tareas, orden, indent, fondo);
    let a = inicio_bloque(tareas, orden, k, indent, fondo);
    let sub = debajo(tareas, orden[k as int], indent, fondo);
    let primera = seq![linea(tareas[orden[0] as int], (orden[0] + 1) as nat, indent)];
    let sub0 = debajo(tareas, orden[0], indent, fondo);
    let resto = orden.drop_first();
    let lr = lineas_de(tareas, resto, indent, fondo);
    assert(l == primera + sub0 + lr);
    if k == 0 {
        assert(inicio_bloque(tareas, resto, 0, indent, fondo) == 0);
        assert(l.subrange(1, 1 + sub.len() as int) =~= sub);
    } else {
        bloque_de_cada_tarea(tareas, resto, (k - 1) as nat, indent, fondo);
        let ar = inicio_bloque(tareas, resto, (k - 1) as nat, indent, fondo);
        assert(resto[k - 1] == orden[k as int]);
        assert(a == 1 + sub0.len() + ar);
        assert(l[a as int] == lr[ar as int]);
        assert(l.subrange(a + 1, a + 1 + sub.len()) =~= lr.subrange(ar + 1, ar + 1 + sub.len()));
    }
}

/// A task that is shown later has its line further down.
pub proof fn inicio_creciente(
    tareas: Seq<TareaView>,
    orden: Seq<usize>,
    i: nat,
    j: nat,
    indent: nat,
    fondo: nat,
)
    requires
        i < j <= orden.len(),
    ensures
        inicio_bloque(tareas, orden, i, indent, fondo) < inicio_bloque(
            tareas,
            orden,
            j,
            indent,
            fondo,
        ),
    decreases j - i,
{
    bloque_de_cada_tarea(tareas, orden, (j - 1) as nat, indent, fondo);
    if i + 1 < j {
        inicio_creciente(tareas, orden, i, (j - 1) as nat, indent, fondo);
    }
}

/// Where a task at the position `p` has the parent `padre`, the order of
/// display holds `p`; the result is its place there.
pub proof fn lugar_en_mostradas(tareas: Seq<TareaView>, padre: Option<Seq<char>>, p: usize) -> (k:
    nat)
    requires
        tareas.len() <= usize::MAX,
        p < tareas.len(),
        tareas[p as int].parent_id == padre,
    ensures
        k < mostradas(tareas, padre).len(),
        mostradas(tareas, padre)[k as int] == p,
{
    let h = hijas(tareas, padre, tareas.len());
    let m = mostradas(tareas, padre);
    hijas_contenido(tareas, padre, tareas.len());
    mostradas_orden_estable(tareas, padre);
    h.to_multiset_ensures();
    m.to_multiset_ensures();
    assert(h.contains(p));
    assert(h.to_multiset().count(p) > 0);
    assert(m.to_multiset().count(p) > 0);
    assert(m.contains(p));
    let k = choose|k: int| 0 <= k < m.len() && m[k] == p;
    k as nat
}

/// Of two tasks at the top level that tie, the one that stands first in the
/// list is shown first. Each has its line without indentation; the lines of
/// the later one's subtasks follow its own line at once, before the line of
/// any task shown after it. The result gives the places of the two tasks in
/// the order of display.
pub proof fn empate_en_orden_de_lista(tareas: Seq<TareaView>, x: usize, y: usize) -> (r: (
    nat,
    nat,
))
    requires
        tareas.len() <= usize::MAX,
        x < y < tareas.len(),
        tareas[x as int].parent_id.is_none(),
        tareas[y as int].parent_id.is_none(),
        empate(tareas[x as int], tareas[y as int]),
    ensures
        r.0 < r.1 < mostradas(tareas, None).len(),
        mostradas(tareas, None)[r.0 as int] == x,
        mostradas(tareas, None)[r.1 as int] == y,
        inicio_bloque(tareas, mostradas(tareas, None), r.0, 0, tareas.len()) < inicio_bloque(
            tareas,
            mostradas(tareas, None),
            r.1,
            0,
            tareas.len(),
        ),
        listado(tareas)[inicio_bloque(tareas, mostradas(tareas, None), r.0, 0, tareas.len()) as int]
            == linea(tareas[x as int], (x + 1) as nat, 0),
        listado(tareas)[inicio_bloque(tareas, mostradas(tareas, None), r.1, 0, tareas.len()) as int]
            == linea(tareas[y as int], (y + 1) as nat, 0),
        listado(tareas).subrange(
            inicio_bloque(tareas, mostradas(tareas, None), r.1, 0, tareas.len()) + 1,
            inicio_bloque(tareas, mostradas(tareas, None), r.1 + 1, 0, tareas.len()) as int,
        ) == debajo(tareas, y, 0, tareas.len()),
        inicio_bloque(tareas, mostradas(tareas, None), r.1 + 1, 0, tareas.len()) <= listado(
            tareas,
        ).len(),
{
    let m = mostradas(tareas, None);
    let kx = lugar_en_mostradas(tareas, None, x);
    let ky = lugar_en_mostradas(tareas, None, y);
    mostradas_orden_estable(tareas, None);
    if ky < kx {
        assert(m[ky as int] < m[kx as int]);
    }
    bloque_de_cada_tarea(tareas, m, kx, 0, tareas.len());
    bloque_de_cada_tarea(tareas, m, ky, 0, tareas.len());
    inicio_creciente(tareas, m, kx, ky, 0, tareas.len());
    (kx, ky)
}

/// The positions `cadena` are a chain of subtasks below `padre`: the first is
/// a subtask of `padre`, and each one after it a subtask of the one before.
pub open spec fn es_cadena(tareas: Seq<TareaView>, padre: Seq<char>, cadena: Seq<usize>) -> bool {
    &&& cadena.len() > 0
    &&& forall|i: int| 0 <= i < cadena.len() ==> (#[trigger] cadena[i]) < tareas.len()
    &&& tareas[cadena[0] as int].parent_id == Some(padre)
    &&& forall|i: int|
        0 < i < cadena.len() ==> tareas[(#[trigger] cadena[i]) as int].parent_id == Some(
            tareas[cadena[i - 1] as int].id,
        )
}

/// A chain without its first link is a chain below that link.
pub proof fn cadena_sin_la_primera(tareas: Seq<TareaView>, padre: Seq<char>, cadena: Seq<usize>)
    requires
        es_cadena(tareas, padre, cadena),
        cadena.len() > 1,
    ensures
        es_cadena(tareas, tareas[cadena[0] as int].id, cadena.drop_first()),
        cadena.drop_first().last() == cadena.last(),
{
    let resto = cadena.drop_first();
    assert forall|i: int| 0 <= i < resto.len() implies (#[trigger] resto[i]) < tareas.len() by {
        assert(resto[i] == cadena[i + 1]);
    }
    assert(resto[0] == cadena[1]);
    assert forall|i: int| 0 < i < resto.len() implies tareas[(#[trigger] resto[i]) as int].parent_id
        == Some(tareas[resto[i - 1] as int].id) by {
        assert(resto[i] == cadena[i + 1]);
        assert(resto[i - 1] == cadena[i]);
    }
}

/// A task at the end of a chain of subtasks is shown below the task at the
/// chain's start, one level deeper for each link after the first, wherever
/// the display goes as deep as the chain is long.
pub proof fn descendiente_mostrada(
    tareas: Seq<TareaView>,
    padre: Seq<char>,
    cadena: Seq<usize>,
    indent: nat,
    fondo: nat,
)
    requires
        tareas.len() <= usize::MAX,
        es_cadena(tareas, padre, cadena),
        fondo >= cadena.len(),
    ensures
        subarbol(tareas, padre, indent, fondo).contains(
            linea(
                tareas[cadena.last() as int],
                (cadena.last() + 1) as nat,
                (indent + cadena.len() - 1) as nat,
            ),
        ),
    decreases cadena.len(),
{
    let c = cadena[0];
    let m = mostradas(tareas, Some(padre));
    let k = lugar_en_mostradas(tareas, Some(padre), c);
    let l = lineas_de(tareas, m, indent, (fondo - 1) as nat);
    assert(l == subarbol(tareas, padre, indent, fondo));
    bloque_de_cada_tarea(tareas, m, k, indent, (fondo - 1) as nat);
    let a = inicio_bloque(tareas, m, k, indent, (fondo - 1) as nat);
    if cadena.len() == 1 {
        assert(l[a as int] == linea(tareas[c as int], (c + 1) as nat, indent));
    } else {
        let resto = cadena.drop_first();
        cadena_sin_la_primera(tareas, padre, cadena);
        descendiente_mostrada(tareas, tareas[c as int].id, resto, indent + 1, (fondo - 1) as nat);
        let sub = debajo(tareas, c, indent, (fondo - 1) as nat);
        let buscada = linea(
            tareas[cadena.last() as int],
            (cadena.last() + 1) as nat,
            (indent + cadena.len() - 1) as nat,
        );
        assert(sub.contains(buscada));
        let i = choose|i: int| 0 <= i < sub.len() && sub[i] == buscada;
        assert(l.subrange(a + 1, a + 1 + sub.len())[i] == l[a + 1 + i]);
        assert(l[a + 1 + i] == buscada);
    }
}

/// A subtask has its line among the lines below its parent's line, one level
/// deeper than that line.
pub proof fn subtarea_bajo_su_padre(tareas: Seq<TareaView>, y: usize, c: usize, indent: nat)
    requires
        tareas.len() <= usize::MAX,
        y < tareas.len(),
        c < tareas.len(),
        tareas[c as int].parent_id == Some(tareas[y as int].id),
    ensures
        debajo(tareas, y, indent, tareas.len()).contains(
            linea(tareas[c as int], (c + 1) as nat, indent + 1),
        ),
{
    let cadena = seq![c];
    assert(es_cadena(tareas, tareas[y as int].id, cadena));
    descendiente_mostrada(tareas, tareas[y as int].id, cadena, indent + 1, tareas.len());
}

/// Reading back what was handed to storage gives the list that was handed
/// over; where nothing can be read the list is empty.
pub proof fn cargar_lo_guardado(tareas: Seq<TareaView>)
    ensures
        cargadas(Some(tareas)) == tareas,
        cargadas(None) == Seq::<TareaView>::empty(),
{
}

} // verus!
