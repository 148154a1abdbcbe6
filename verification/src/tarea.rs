//! One task: what it holds, how it is made, tagged and written as a line.

use crate::texto::{
    agregar_decimal, agregar_sangria, agregar_unidas, decimal, en_blanco, esta_en_blanco, sangria,
    textos, unir,
};
use vstd::prelude::*;
use vstd::string::*;

verus! {

/// One unit of work.
#[derive(Debug, Clone, PartialEq, Eq)]
pub struct Tarea {
    /// Assigned once, when the task is made.
    pub id: String,
    /// The `id` of the task this one belongs under; `None` at the top level.
    pub parent_id: Option<String>,
    pub descripcion: String,
    pub completada: bool,
    /// In the order in which they were added; the same tag may occur twice.
    pub etiquetas: Vec<String>,
    /// 0 stands for no priority.
    pub prioridad: u32,
}

/// What a task holds, as plain values.
pub ghost struct TareaView {
    pub id: Seq<char>,
    pub parent_id: Option<Seq<char>>,
    pub descripcion: Seq<char>,
    pub completada: bool,
    pub etiquetas: Seq<Seq<char>>,
    pub prioridad: u32,
}

/// Why an operation on tasks was refused.
#[derive(Debug, Clone, Copy, PartialEq, Eq, Structural)]
pub enum ErrorTarea {
    /// The description is empty or holds nothing but whitespace.
    DescripcionVacia,
    /// The position is not between 1 and the number of tasks.
    PosicionInvalida,
}

impl View for Tarea {
    type V = TareaView;

    open spec fn view(&self) -> TareaView {
        TareaView {
            id: self.id@,
            parent_id: match self.parent_id {
                Some(p) => Some(p@),
                None => None,
            },
            descripcion: self.descripcion@,
            completada: self.completada,
            etiquetas: textos(self.etiquetas@),
            prioridad: self.prioridad,
        }
    }
}

/// What each task of a list holds, in the list's order.
pub open spec fn vistas(tareas: Seq<Tarea>) -> Seq<TareaView> {
    Seq::new(tareas.len(), |i: int| tareas[i]@)
}

/// A task as it is right after its creation under `id`.
pub open spec fn tarea_nueva(id: Seq<char>, descripcion: Seq<char>) -> TareaView {
    TareaView {
        id,
        parent_id: None,
        descripcion,
        completada: false,
        etiquetas: Seq::empty(),
        prioridad: 0,
    }
}

/// The checkbox at the start of a line.
pub open spec fn marca(completada: bool) -> Seq<char> {
    if completada {
        "[X]"@
    } else {
        "[ ]"@
    }
}

/// The priority as a line shows it: nothing for priority 0.
pub open spec fn texto_prioridad(prioridad: u32) -> Seq<char> {
    if prioridad != 0 {
        " - priority: "@ + decimal(prioridad as nat)
    } else {
        Seq::empty()
    }
}

/// The tags as a line shows them: nothing where there are none.
pub open spec fn texto_etiquetas(etiquetas: Seq<Seq<char>>) -> Seq<char> {
    if etiquetas.len() > 0 {
        " (tags: "@ + unir(etiquetas, ", "@) + ")"@
    } else {
        Seq::empty()
    }
}

/// The line that shows task `t` under the number `numero`, `indent` levels deep.
pub open spec fn linea(t: TareaView, numero: nat, indent: nat) -> Seq<char> {
    sangria(indent) + marca(t.completada) + " "@ + decimal(numero) + ": "@ + t.descripcion
        + texto_prioridad(t.prioridad) + texto_etiquetas(t.etiquetas) + "\n"@
}

/// Calls `uuid::Uuid::new_v4` and writes the result with its `Display`, which is
/// the lower-case hyphenated form. The identifier is random; the contract claims
/// only its length, which that form fixes at 36 characters.
#[verifier::external_body]
pub(crate) fn identificador_nuevo() -> (id: String)
    ensures
        id@.len() == 36,
{
    uuid::Uuid::new_v4().to_string()
}

fn copiar_textos(v: &Vec<String>) -> (r: Vec<String>)
    ensures
        textos(r@) == textos(v@),
{
    let mut r: Vec<String> = Vec::new();
    let mut i: usize = 0;
    while i < v.len()
        invariant
            i <= v.len(),
            r.len() == i,
            forall|k: int| 0 <= k < i ==> r@[k]@ == v@[k]@,
        decreases v.len() - i,
    {
        r.push(v[i].clone());
        i += 1;
    }
    assert(textos(r@) =~= textos(v@));
    r
}

impl Tarea {
    /// A fresh task under the given identifier, or `None` for a description
    /// that holds nothing but whitespace.
    pub fn con_id(id: String, descripcion: &str) -> (r: Option<Tarea>)
        ensures
            en_blanco(descripcion@) ==> r.is_none(),
            !en_blanco(descripcion@) ==> r.is_some() && r.unwrap()@ == tarea_nueva(
                id@,
                descripcion@,
            ),
    {
        if esta_en_blanco(descripcion) {
            None
        } else {
            let t = Tarea {
                id,
                parent_id: None,
                descripcion: String::from_str(descripcion),
                completada: false,
                etiquetas: Vec::new(),
                prioridad: 0,
            };
            assert(t@.etiquetas =~= Seq::empty());
            Some(t)
        }
    }

    /// A fresh task under a new random identifier, or `None` for a description
    /// that holds nothing but whitespace.
    pub fn new(descripcion: &str) -> (r: Option<Tarea>)
        ensures
            en_blanco(descripcion@) ==> r.is_none(),
            !en_blanco(descripcion@) ==> r.is_some() && r.unwrap()@ == tarea_nueva(
                r.unwrap()@.id,
                descripcion@,
            ) && r.unwrap()@.id.len() == 36,
    {
        Tarea::con_id(identificador_nuevo(), descripcion)
    }

    /// Adds a tag after those the task has.
    pub fn etiquetar(&mut self, etiqueta: &str)
        ensures
            final(self)@ == (TareaView {
                etiquetas: old(self)@.etiquetas.push(etiqueta@),
                ..old(self)@
            }),
    {
        self.etiquetas.push(String::from_str(etiqueta));
        assert(textos(self.etiquetas@) =~= textos(old(self).etiquetas@).push(etiqueta@));
    }

    /// A task that holds what this one holds.
    pub fn copia(&self) -> (r: Tarea)
        ensures
            r@ == self@,
    {
        Tarea {
            id: self.id.clone(),
            parent_id: match &self.parent_id {
                Some(p) => Some(p.clone()),
                None => None,
            },
            descripcion: self.descripcion.clone(),
            completada: self.completada,
            etiquetas: copiar_textos(&self.etiquetas),
            prioridad: self.prioridad,
        }
    }

    /// The line that shows the task under the number `id`, `indent` levels deep.
    pub fn mostrar(&self, id: usize, indent: usize) -> (r: String)
        ensures
            r@ == linea(self@, id as nat, indent as nat),
    {
        let mut s = String::new();
        agregar_sangria(&mut s, indent);
        s.append(if self.completada { "[X]" } else { "[ ]" });
        s.append(" ");
        agregar_decimal(&mut s, id as u64);
        s.append(": ");
        s.append(self.descripcion.as_str());
        if self.prioridad != 0 {
            s.append(" - priority: ");
            agregar_decimal(&mut s, self.prioridad as u64);
        }
        assert(s@ =~= sangria(indent as nat) + marca(self.completada) + " "@ + decimal(id as nat)
            + ": "@ + self@.descripcion + texto_prioridad(self.prioridad));
        if self.etiquetas.len() > 0 {
            s.append(" (tags: ");
            agregar_unidas(&mut s, &self.etiquetas, 0, ", ");
            assert(textos(self.etiquetas@).skip(0) =~= textos(self.etiquetas@));
            s.append(")");
        }
        assert(s@ =~= sangria(indent as nat) + marca(self.completada) + " "@ + decimal(id as nat)
            + ": "@ + self@.descripcion + texto_prioridad(self.prioridad) + texto_etiquetas(
            self@.etiquetas,
        ));
        s.append("\n");
        s
    }
}

} // verus!
