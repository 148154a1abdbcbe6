//! The task list: every operation addresses a task by its position, counted
//! from 1 in the order in which the tasks were added.

use crate::orden::{mostradas, orden_de, ordenar_posiciones, posiciones_hijas};
use crate::tarea::{
    identificador_nuevo, linea, tarea_nueva, vistas, ErrorTarea, Tarea, TareaView,
};
use crate::texto::{en_blanco, textos};
use vstd::prelude::*;
use vstd::string::*;

verus! {

/// The tasks, in the order in which they were added.
#[derive(Debug, Clone, PartialEq, Eq)]
pub struct Tareas {
    pub tareas: Vec<Tarea>,
}

impl View for Tareas {
    type V = Seq<TareaView>;

    open spec fn view(&self) -> Seq<TareaView> {
        vistas(self.tareas@)
    }
}

/// `posicion` names a task of a list of `n` tasks.
pub open spec fn posicion_valida(posicion: usize, n: nat) -> bool {
    0 < posicion <= n
}

/// A subtask as it is right after its creation under `id`, below the task
/// whose identifier is `padre`.
pub open spec fn subtarea_nueva(
    id: Seq<char>,
    padre: Seq<char>,
    descripcion: Seq<char>,
) -> TareaView {
    TareaView { parent_id: Some(padre), ..tarea_nueva(id, descripcion) }
}

/// The list after the task at `id` has been marked as completed; the list
/// itself where `id` names no task.
pub open spec fn tras_completar(tareas: Seq<TareaView>, id: usize) -> Seq<TareaView> {
    if posicion_valida(id, tareas.len()) {
        tareas.update(id - 1, (TareaView { completada: true, ..tareas[id - 1] }))
    } else {
        tareas
    }
}

/// The list after the task at `id` has been given the priority `prioridad`;
/// the list itself where `id` names no task.
pub open spec fn tras_priorizar(tareas: Seq<TareaView>, id: usize, prioridad: u32) -> Seq<
    TareaView,
> {
    if posicion_valida(id, tareas.len()) {
        tareas.update(id - 1, (TareaView { prioridad, ..tareas[id - 1] }))
    } else {
        tareas
    }
}

/// The list after the task at `id` has been given one more tag; the list
/// itself where `id` names no task.
pub open spec fn tras_etiquetar(tareas: Seq<TareaView>, id: usize, etiqueta: Seq<char>) -> Seq<
    TareaView,
> {
    if posicion_valida(id, tareas.len()) {
        tareas.update(
            id - 1,
            (TareaView { etiquetas: tareas[id - 1].etiquetas.push(etiqueta), ..tareas[id - 1] }),
        )
    } else {
        tareas
    }
}

/// The lines that show the tasks at the positions `orden`, each followed by
/// the lines of its subtasks, as far as `fondo` levels below `indent`.
pub open spec fn lineas_de(
    tareas: Seq<TareaView>,
    orden: Seq<usize>,
    indent: nat,
    fondo: nat,
) -> Seq<Seq<char>>
    decreases fondo, orden.len() + 1,
{
    if orden.len() == 0 {
        Seq::empty()
    } else {
        let p = orden[0];
        seq![linea(tareas[p as int], (p + 1) as nat, indent)] + subarbol(
            tareas,
            tareas[p as int].id,
            indent + 1,
            fondo,
        ) + lineas_de(tareas, orden.drop_first(), indent, fondo)
    }
}

/// The lines that show the tasks below the task whose identifier is `padre`:
/// its subtasks at `indent`, theirs one level deeper, and so on for `fondo`
/// levels.
pub open spec fn subarbol(
    tareas: Seq<TareaView>,
    padre: Seq<char>,
    indent: nat,
    fondo: nat,
) -> Seq<Seq<char>>
    decreases fondo, 0nat,
{
    if fondo == 0 {
        Seq::empty()
    } else {
        lineas_de(tareas, mostradas(tareas, Some(padre)), indent, (fondo - 1) as nat)
    }
}

/// The lines that show the whole list: the tasks at the top level in the order
/// of display, each under its position in the list and followed by its subtasks.
pub open spec fn listado(tareas: Seq<TareaView>) -> Seq<Seq<char>> {
    lineas_de(tareas, mostradas(tareas, None), 0, tareas.len())
}

/// All the positions of the list, in the order of display.
pub open spec fn orden_completo(tareas: Seq<TareaView>) -> Seq<usize> {
    Seq::new(tareas.len(), |i: int| i as usize).sort_by(orden_de(tareas))
}

/// The list sorted by the order of display; tasks that tie keep their order.
pub open spec fn reordenadas(tareas: Seq<TareaView>) -> Seq<TareaView> {
    Seq::new(tareas.len(), |k: int| tareas[orden_completo(tareas)[k] as int])
}

/// The list that storage gives: what was read, or nothing where nothing could
/// be read.
pub open spec fn cargadas(contenido: Option<Seq<TareaView>>) -> Seq<TareaView> {
    match contenido {
        Some(v) => v,
        None => Seq::empty(),
    }
}

impl Tareas {
    fn volcar_lineas(
        &self,
        orden: &Vec<usize>,
        indent: usize,
        fondo: usize,
        salida: &mut Vec<String>,
    )
        requires
            forall|k: int| 0 <= k < orden.len() ==> orden[k] < self.tareas.len(),
            indent + fondo <= usize::MAX,
        ensures
            textos(final(salida)@) == textos(old(salida)@) + lineas_de(
                self@,
                orden@,
                indent as nat,
                fondo as nat,
            ),
        decreases fondo, 1nat,
    {
        let ghost inicio = textos(salida@);
        let ghost total = lineas_de(self@, orden@, indent as nat, fondo as nat);
        let mut k: usize = 0;
        assert(orden@.skip(0) =~= orden@);
        while k < orden.len()
            invariant
                k <= orden.len(),
                forall|k: int| 0 <= k < orden.len() ==> orden[k] < self.tareas.len(),
                indent + fondo <= usize::MAX,
                total == lineas_de(self@, orden@, indent as nat, fondo as nat),
                textos(salida@) + lineas_de(
                    self@,
                    orden@.skip(k as int),
                    indent as nat,
                    fondo as nat,
                ) == inicio + total,
            decreases orden.len() - k,
        {
            let p: usize = orden[k];
            let t = &self.tareas[p];
            let ghost previas = textos(salida@);
            let ghost resto = orden@.skip(k as int);
            salida.push(t.mostrar(p + 1, indent));
            assert(textos(salida@) =~= previas + seq![linea(self@[p as int], (p + 1) as nat, indent as nat)]);
            if fondo > 0 {
                self.volcar_subarbol(&t.id, indent + 1, fondo, salida);
            }
            proof {
                assert(resto[0] == p);
                assert(resto.drop_first() =~= orden@.skip(k + 1));
                assert(textos(salida@) =~= previas + seq![
                    linea(self@[p as int], (p + 1) as nat, indent as nat),
                ] + subarbol(self@, self@[p as int].id, (indent + 1) as nat, fondo as nat));
                assert(textos(salida@) + lineas_de(
                    self@,
                    orden@.skip(k + 1),
                    indent as nat,
                    fondo as nat,
                ) =~= previas + lineas_de(self@, resto, indent as nat, fondo as nat));
            }
            k += 1;
        }
        assert(textos(salida@) =~= inicio + total);
    }

    fn volcar_subarbol(&self, padre: &String, indent: usize, fondo: usize, salida: &mut Vec<String>)
        requires
            fondo > 0 ==> indent + (fondo - 1) <= usize::MAX,
        ensures
            textos(final(salida)@) == textos(old(salida)@) + subarbol(
                self@,
                padre@,
                indent as nat,
                fondo as nat,
            ),
        decreases fondo, 0nat,
    {
        if fondo > 0 {
            let hijas = posiciones_hijas(&self.tareas, Some(padre));
            let orden = ordenar_posiciones(&self.tareas, &hijas);
            self.volcar_lineas(&orden, indent, fondo - 1, salida);
        } else {
            assert(textos(salida@) =~= textos(salida@) + Seq::<Seq<char>>::empty());
        }
    }

    /// The lines that show the tasks below the task whose identifier is
    /// `parent_id`: its subtasks at `indent`, each under its position in the
    /// list and followed by its own subtasks one level deeper. The display
    /// goes as many levels down as the list has tasks, which is as deep as a
    /// chain of subtasks can reach.
    pub fn mostrar_subtareas(&self, parent_id: &str, indent: usize) -> (r: Vec<String>)
        requires
            self@.len() > 0 ==> indent + (self@.len() - 1) <= usize::MAX,
        ensures
            textos(r@) == subarbol(self@, parent_id@, indent as nat, self@.len()),
    {
        let mut r: Vec<String> = Vec::new();
        let padre = String::from_str(parent_id);
        self.volcar_subarbol(&padre, indent, self.tareas.len(), &mut r);
        assert(textos(r@) =~= subarbol(self@, parent_id@, indent as nat, self@.len()));
        r
    }

    /// The lines that show the whole list as a tree.
    pub fn listar(&self) -> (r: Vec<String>)
        ensures
            textos(r@) == listado(self@),
    {
        let mut r: Vec<String> = Vec::new();
        let arriba = posiciones_hijas(&self.tareas, None);
        let orden = ordenar_posiciones(&self.tareas, &arriba);
        self.volcar_lineas(&orden, 0, self.tareas.len(), &mut r);
        assert(textos(r@) =~= listado(self@));
        r
    }

    /// Sorts the list by the order of display; tasks that tie keep their order.
    pub fn reordenar(&mut self)
        ensures
            final(self)@ == reordenadas(old(self)@),
    {
        let n: usize = self.tareas.len();
        let mut todas: Vec<usize> = Vec::new();
        let mut i: usize = 0;
        while i < n
            invariant
                i <= n,
                todas@ == Seq::new(i as nat, |k: int| k as usize),
            decreases n - i,
        {
            todas.push(i);
            i += 1;
            assert(todas@ =~= Seq::new(i as nat, |k: int| k as usize));
        }
        let orden = ordenar_posiciones(&self.tareas, &todas);
        let mut nuevas: Vec<Tarea> = Vec::new();
        let mut k: usize = 0;
        while k < n
            invariant
                k <= n,
                n == self.tareas.len(),
                orden.len() == n,
                nuevas.len() == k,
                forall|j: int| 0 <= j < orden.len() ==> orden[j] < self.tareas.len(),
                forall|j: int| 0 <= j < k ==> nuevas[j]@ == self.tareas[orden[j] as int]@,
            decreases n - k,
        {
            nuevas.push(self.tareas[orden[k]].copia());
            k += 1;
        }
        self.tareas = nuevas;
        assert(self@ =~= reordenadas(old(self)@));
    }

    /// The records that storage is to hold: every task, in the list's order.
    pub fn guardar(&self) -> (r: Vec<Tarea>)
        ensures
            vistas(r@) == self@,
    {
        let mut r: Vec<Tarea> = Vec::new();
        let mut i: usize = 0;
        while i < self.tareas.len()
            invariant
                i <= self.tareas.len(),
                r.len() == i,
                forall|j: int| 0 <= j < i ==> r[j]@ == self.tareas[j]@,
            decreases self.tareas.len() - i,
        {
            r.push(self.tareas[i].copia());
            i += 1;
        }
        assert(vistas(r@) =~= self@);
        r
    }

    /// The list that storage gives: the records that were read, in their
    /// order, or an empty list where none could be read.
    pub fn cargar(contenido: Option<Vec<Tarea>>) -> (r: Tareas)
        ensures
            r@ == cargadas(
                match contenido {
                    Some(v) => Some(vistas(v@)),
                    None => None,
                },
            ),
    {
        match contenido {
            Some(tareas) => Tareas { tareas },
            None => Tareas::new(),
        }
    }

    /// An empty list.
    pub fn new() -> (r: Tareas)
        ensures
            r@ == Seq::<TareaView>::empty(),
    {
        let r = Tareas { tareas: Vec::new() };
        assert(r@ =~= Seq::<TareaView>::empty());
        r
    }

    /// Adds a task under the given identifier at the end of the list, unless
    /// the description holds nothing but whitespace.
    pub fn agregar_con_id(&mut self, id: String, descripcion: &str) -> (r: Result<(), ErrorTarea>)
        ensures
            !en_blanco(descripcion@) ==> r.is_ok() && final(self)@ == old(self)@.push(
                tarea_nueva(id@, descripcion@),
            ),
            en_blanco(descripcion@) ==> r == Err::<(), ErrorTarea>(ErrorTarea::DescripcionVacia)
                && *final(self) == *old(self),
    {
        match Tarea::con_id(id, descripcion) {
            Some(t) => {
                self.tareas.push(t);
                assert(self@ =~= old(self)@.push(tarea_nueva(id@, descripcion@)));
                Ok(())
            },
            None => Err(ErrorTarea::DescripcionVacia),
        }
    }

    /// Adds a task under a new random identifier at the end of the list, unless
    /// the description holds nothing but whitespace.
    pub fn agregar(&mut self, descripcion: &str) -> (r: Result<(), ErrorTarea>)
        ensures
            !en_blanco(descripcion@) ==> r.is_ok() && final(self)@.len() == old(self)@.len() + 1
                && final(self)@ == old(self)@.push(
                tarea_nueva(final(self)@.last().id, descripcion@),
            ) && final(self)@.last().id.len() == 36,
            en_blanco(descripcion@) ==> r == Err::<(), ErrorTarea>(ErrorTarea::DescripcionVacia)
                && *final(self) == *old(self),
    {
        match Tarea::new(descripcion) {
            Some(t) => {
                self.tareas.push(t);
                assert(self@ =~= old(self)@.push(tarea_nueva(t@.id, descripcion@)));
                Ok(())
            },
            None => Err(ErrorTarea::DescripcionVacia),
        }
    }

    /// Adds a task under the given identifier at the end of the list, as a
    /// subtask of the task at `parent_pos_id`. The position is looked at first,
    /// the description second.
    pub fn agregar_subtarea_con_id(
        &mut self,
        parent_pos_id: usize,
        id: String,
        descripcion: &str,
    ) -> (r: Result<(), ErrorTarea>)
        ensures
            posicion_valida(parent_pos_id, old(self)@.len()) && !en_blanco(descripcion@) ==> r.is_ok()
                && final(self)@ == old(self)@.push(
                subtarea_nueva(id@, old(self)@[parent_pos_id - 1].id, descripcion@),
            ),
            !posicion_valida(parent_pos_id, old(self)@.len()) ==> r == Err::<(), ErrorTarea>(
                ErrorTarea::PosicionInvalida,
            ) && *final(self) == *old(self),
            posicion_valida(parent_pos_id, old(self)@.len()) && en_blanco(descripcion@) ==> r
                == Err::<(), ErrorTarea>(ErrorTarea::DescripcionVacia) && *final(self) == *old(
                self,
            ),
    {
        if parent_pos_id > 0 && parent_pos_id <= self.tareas.len() {
            let padre = self.tareas[parent_pos_id - 1].id.clone();
            match Tarea::con_id(id, descripcion) {
                Some(t) => {
                    let mut t = t;
                    t.parent_id = Some(padre);
                    self.tareas.push(t);
                    assert(self@ =~= old(self)@.push(
                        subtarea_nueva(id@, old(self)@[parent_pos_id - 1].id, descripcion@),
                    ));
                    Ok(())
                },
                None => Err(ErrorTarea::DescripcionVacia),
            }
        } else {
            Err(ErrorTarea::PosicionInvalida)
        }
    }

    /// Adds a task under a new random identifier at the end of the list, as a
    /// subtask of the task at `parent_pos_id`. The position is looked at first,
    /// the description second.
    pub fn agregar_subtarea(&mut self, parent_pos_id: usize, descripcion: &str) -> (r: Result<
        (),
        ErrorTarea,
    >)
        ensures
            posicion_valida(parent_pos_id, old(self)@.len()) && !en_blanco(descripcion@) ==> r.is_ok()
                && final(self)@.len() == old(self)@.len() + 1 && final(self)@ == old(self)@.push(
                subtarea_nueva(
                    final(self)@.last().id,
                    old(self)@[parent_pos_id - 1].id,
                    descripcion@,
                ),
            ),
            !posicion_valida(parent_pos_id, old(self)@.len()) ==> r == Err::<(), ErrorTarea>(
                ErrorTarea::PosicionInvalida,
            ) && *final(self) == *old(self),
            posicion_valida(parent_pos_id, old(self)@.len()) && en_blanco(descripcion@) ==> r
                == Err::<(), ErrorTarea>(ErrorTarea::DescripcionVacia) && *final(self) == *old(
                self,
            ),
    {
        if parent_pos_id > 0 && parent_pos_id <= self.tareas.len() {
            self.agregar_subtarea_con_id(parent_pos_id, identificador_nuevo(), descripcion)
        } else {
            Err(ErrorTarea::PosicionInvalida)
        }
    }

    /// Sets the priority of the task at `id`.
    pub fn priorizar(&mut self, id: usize, prioridad: u32) -> (r: Result<(), ErrorTarea>)
        ensures
            final(self)@ == tras_priorizar(old(self)@, id, prioridad),
            posicion_valida(id, old(self)@.len()) ==> r.is_ok(),
            !posicion_valida(id, old(self)@.len()) ==> r == Err::<(), ErrorTarea>(
                ErrorTarea::PosicionInvalida,
            ) && *final(self) == *old(self),
    {
        if id > 0 && id <= self.tareas.len() {
            self.tareas[id - 1].prioridad = prioridad;
            assert(self@ =~= old(self)@.update(
                id - 1,
                (TareaView { prioridad, ..old(self)@[id - 1] }),
            ));
            Ok(())
        } else {
            Err(ErrorTarea::PosicionInvalida)
        }
    }

    /// Adds a tag to the task at `id`, after those it has.
    pub fn etiquetar(&mut self, id: usize, etiqueta: &str) -> (r: Result<(), ErrorTarea>)
        ensures
            final(self)@ == tras_etiquetar(old(self)@, id, etiqueta@),
            posicion_valida(id, old(self)@.len()) ==> r.is_ok(),
            !posicion_valida(id, old(self)@.len()) ==> r == Err::<(), ErrorTarea>(
                ErrorTarea::PosicionInvalida,
            ) && *final(self) == *old(self),
    {
        if id > 0 && id <= self.tareas.len() {
            self.tareas[id - 1].etiquetar(etiqueta);
            assert(self@ =~= old(self)@.update(
                id - 1,
                (TareaView {
                    etiquetas: old(self)@[id - 1].etiquetas.push(etiqueta@),
                    ..old(self)@[id - 1]
                }),
            ));
            Ok(())
        } else {
            Err(ErrorTarea::PosicionInvalida)
        }
    }

    /// Marks the task at `id` as completed.
    pub fn completar(&mut self, id: usize) -> (r: Result<(), ErrorTarea>)
        ensures
            final(self)@ == tras_completar(old(self)@, id),
            posicion_valida(id, old(self)@.len()) ==> r.is_ok(),
            !posicion_valida(id, old(self)@.len()) ==> r == Err::<(), ErrorTarea>(
                ErrorTarea::PosicionInvalida,
            ) && *final(self) == *old(self),
    {
        if id > 0 && id <= self.tareas.len() {
            self.tareas[id - 1].completada = true;
            assert(self@ =~= old(self)@.update(
                id - 1,
                (TareaView { completada: true, ..old(self)@[id - 1] }),
            ));
            Ok(())
        } else {
            Err(ErrorTarea::PosicionInvalida)
        }
    }
}

} // verus!
