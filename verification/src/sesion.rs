//! One step of a session: what a command does to the list, what is to be
//! printed in answer, and what is left for the caller to do with storage.

use crate::comando::{Comando, ComandoView, ErrorComando};
use crate::tarea::{identificador_nuevo, tarea_nueva, ErrorTarea, TareaView};
use crate::tareas::{
    listado, posicion_valida, reordenadas, subtarea_nueva, tras_completar, tras_etiquetar,
    tras_priorizar, Tareas,
};
use crate::texto::{agregar_decimal, agregar_unidas, decimal, en_blanco, textos, unir};
use vstd::prelude::*;
use vstd::string::*;

verus! {

/// What the caller has to do once a command has been carried out.
#[derive(Debug, Clone, Copy, PartialEq, Eq, Structural)]
pub enum Accion {
    /// Nothing: go on with the next command.
    Seguir,
    /// Write the list to storage.
    Guardar,
    /// Replace the list by the one that storage holds.
    Cargar,
    /// Write the list to storage and end the session.
    Salir,
}

/// The answer to one command.
#[derive(Debug, Clone, PartialEq, Eq)]
pub struct Respuesta {
    /// The text to print.
    pub texto: String,
    pub accion: Accion,
}

/// The text that lists the commands.
pub open spec fn texto_ayuda() -> Seq<char> {
    "\nComandos disponibles:\n  agregar          <descripcion>\n  completar        <id>\n  etiquetar        <id> <etiqueta>\n  priorizar        <id> <prioridad>\n  agregar_subtarea <parent id> <descripcion>\n  listar\n  reordenar\n  guardar\n  salir\n"@
}

/// The text that shows the list: a heading, then the lines of the tree.
pub open spec fn texto_listado(tareas: Seq<TareaView>) -> Seq<char> {
    "\nLista de Tareas:\n"@ + unir(listado(tareas), ""@)
}

/// The text that says why a line of input is no command.
pub open spec fn mensaje_error(e: ErrorComando) -> Seq<char> {
    match e {
        ErrorComando::FaltaDescripcion => "\nLa descripción es requerida.\n"@,
        ErrorComando::FaltanPadreYDescripcion => "\nID de la tarea padre y descripción son requeridos.\n"@,
        ErrorComando::PadreNoNumerico => "\nID de la tarea padre inválido. Debe ser un número.\n"@,
        ErrorComando::IdNoNumerico => "\nID inválido. Debe ser un número.\n"@,
        ErrorComando::FaltanIdYEtiqueta => "\nID y etiqueta son requeridos.\n"@,
        ErrorComando::FaltanIdYPrioridad => "\nID y prioridad son requeridos.\n"@,
        ErrorComando::PrioridadNoNumerica => "\nPrioridad inválida. Debe ser un número.\n"@,
        ErrorComando::NoReconocido => "\nComando no reconocido. Intenta de nuevo.\n"@,
    }
}

/// The text that says why the list refused an operation; `padre` tells
/// whether the position was that of a parent.
pub open spec fn mensaje_rechazo(e: ErrorTarea, padre: bool) -> Seq<char> {
    match e {
        ErrorTarea::DescripcionVacia => "\nLa descripción de la tarea no puede estar vacía.\n"@,
        ErrorTarea::PosicionInvalida => if padre {
            "\nID de tarea padre no válido.\n"@
        } else {
            "\nID de tarea no válido.\n"@
        },
    }
}

/// The text printed in answer to a command given to the list `antes`.
pub open spec fn mensaje(c: ComandoView, antes: Seq<TareaView>) -> Seq<char> {
    match c {
        ComandoView::Vacio => Seq::empty(),
        ComandoView::Ayuda => texto_ayuda(),
        ComandoView::Salir => "\nSaliendo del gestor de tareas\n"@,
        ComandoView::Listar => texto_listado(antes),
        ComandoView::Guardar => Seq::empty(),
        ComandoView::Cargar => Seq::empty(),
        ComandoView::Agregar(d) => if !en_blanco(d) {
            "\nTarea agregada: "@ + d + "\n"@
        } else {
            mensaje_rechazo(ErrorTarea::DescripcionVacia, false)
        },
        ComandoView::AgregarSubtarea(p, d) => if !posicion_valida(p, antes.len()) {
            mensaje_rechazo(ErrorTarea::PosicionInvalida, true)
        } else if en_blanco(d) {
            mensaje_rechazo(ErrorTarea::DescripcionVacia, true)
        } else {
            "\nSubtarea agregada: "@ + d + "\n"@
        },
        ComandoView::Completar(p) => if posicion_valida(p, antes.len()) {
            "\nTarea "@ + decimal(p as nat) + " marcada como completada.\n"@
        } else {
            mensaje_rechazo(ErrorTarea::PosicionInvalida, false)
        },
        ComandoView::Etiquetar(p, e) => if posicion_valida(p, antes.len()) {
            "\nTarea "@ + decimal(p as nat) + " etiquetada con "@ + e + ".\n"@
        } else {
            mensaje_rechazo(ErrorTarea::PosicionInvalida, false)
        },
        ComandoView::Priorizar(p, n) => if posicion_valida(p, antes.len()) {
            "\nTarea "@ + decimal(p as nat) + " priorizada con "@ + decimal(n as nat) + ".\n"@
        } else {
            mensaje_rechazo(ErrorTarea::PosicionInvalida, false)
        },
        ComandoView::Reordenar => texto_listado(reordenadas(antes)),
        ComandoView::Invalido(e) => mensaje_error(e),
    }
}

/// The list after a command; `id` is the identifier that a new task gets.
pub open spec fn estado_tras(t: Seq<TareaView>, c: ComandoView, id: Seq<char>) -> Seq<TareaView> {
    match c {
        ComandoView::Agregar(d) => if !en_blanco(d) {
            t.push(tarea_nueva(id, d))
        } else {
            t
        },
        ComandoView::AgregarSubtarea(p, d) => if posicion_valida(p, t.len()) && !en_blanco(d) {
            t.push(subtarea_nueva(id, t[p - 1].id, d))
        } else {
            t
        },
        ComandoView::Completar(p) => tras_completar(t, p),
        ComandoView::Etiquetar(p, e) => tras_etiquetar(t, p, e),
        ComandoView::Priorizar(p, n) => tras_priorizar(t, p, n),
        ComandoView::Reordenar => reordenadas(t),
        _ => t,
    }
}

/// What is left for the caller to do after a command.
pub open spec fn accion_de(c: ComandoView) -> Accion {
    match c {
        ComandoView::Salir => Accion::Salir,
        ComandoView::Guardar => Accion::Guardar,
        ComandoView::Cargar => Accion::Cargar,
        _ => Accion::Seguir,
    }
}

/// A command that is no command changes nothing and is answered by the one
/// text that says why: so a `completar` without a number completes no task.
pub proof fn invalido_no_cambia(e: ErrorComando, tareas: Seq<TareaView>, id: Seq<char>)
    ensures
        estado_tras(tareas, ComandoView::Invalido(e), id) == tareas,
        mensaje(ComandoView::Invalido(e), tareas) == mensaje_error(e),
        accion_de(ComandoView::Invalido(e)) == Accion::Seguir,
{
}

/// The text that says why a line of input is no command.
pub fn texto_error(e: ErrorComando) -> (r: String)
    ensures
        r@ == mensaje_error(e),
{
    String::from_str(
        match e {
            ErrorComando::FaltaDescripcion => "\nLa descripción es requerida.\n",
            ErrorComando::FaltanPadreYDescripcion => "\nID de la tarea padre y descripción son requeridos.\n",
            ErrorComando::PadreNoNumerico => "\nID de la tarea padre inválido. Debe ser un número.\n",
            ErrorComando::IdNoNumerico => "\nID inválido. Debe ser un número.\n",
            ErrorComando::FaltanIdYEtiqueta => "\nID y etiqueta son requeridos.\n",
            ErrorComando::FaltanIdYPrioridad => "\nID y prioridad son requeridos.\n",
            ErrorComando::PrioridadNoNumerica => "\nPrioridad inválida. Debe ser un número.\n",
            ErrorComando::NoReconocido => "\nComando no reconocido. Intenta de nuevo.\n",
        },
    )
}

/// The text that says why the list refused an operation; `padre` tells
/// whether the position was that of a parent.
pub fn texto_rechazo(e: ErrorTarea, padre: bool) -> (r: String)
    ensures
        r@ == mensaje_rechazo(e, padre),
{
    String::from_str(
        match e {
            ErrorTarea::DescripcionVacia => "\nLa descripción de la tarea no puede estar vacía.\n",
            ErrorTarea::PosicionInvalida => if padre {
                "\nID de tarea padre no válido.\n"
            } else {
                "\nID de tarea no válido.\n"
            },
        },
    )
}

fn texto_hecho(antes: &str, dato: &str, despues: &str) -> (r: String)
    ensures
        r@ == antes@ + dato@ + despues@,
{
    let mut s = String::from_str(antes);
    s.append(dato);
    s.append(despues);
    s
}

fn texto_tarea(id: usize, medio: &str) -> (r: String)
    ensures
        r@ == "\nTarea "@ + decimal(id as nat) + medio@,
{
    let mut s = String::from_str("\nTarea ");
    agregar_decimal(&mut s, id as u64);
    s.append(medio);
    s
}

impl Tareas {
    /// The text that shows the list: a heading, then the lines of the tree.
    pub fn texto_listar(&self) -> (r: String)
        ensures
            r@ == texto_listado(self@),
    {
        let lineas = self.listar();
        let mut s = String::from_str("\nLista de Tareas:\n");
        agregar_unidas(&mut s, &lineas, 0, "");
        assert(textos(lineas@).skip(0) =~= textos(lineas@));
        s
    }

    /// Carries out a command; a task that it adds gets the identifier `id`.
    /// Storage is left to the caller, as the answer says.
    pub fn ejecutar_con_id(&mut self, comando: &Comando, id: String) -> (r: Respuesta)
        ensures
            final(self)@ == estado_tras(old(self)@, comando@, id@),
            r.texto@ == mensaje(comando@, old(self)@),
            r.accion == accion_de(comando@),
    {
        match comando {
            Comando::Vacio => Respuesta { texto: String::new(), accion: Accion::Seguir },
            Comando::Ayuda => Respuesta {
                texto: String::from_str(
                    "\nComandos disponibles:\n  agregar          <descripcion>\n  completar        <id>\n  etiquetar        <id> <etiqueta>\n  priorizar        <id> <prioridad>\n  agregar_subtarea <parent id> <descripcion>\n  listar\n  reordenar\n  guardar\n  salir\n",
                ),
                accion: Accion::Seguir,
            },
            Comando::Salir => Respuesta {
                texto: String::from_str("\nSaliendo del gestor de tareas\n"),
                accion: Accion::Salir,
            },
            Comando::Listar => Respuesta { texto: self.texto_listar(), accion: Accion::Seguir },
            Comando::Guardar => Respuesta { texto: String::new(), accion: Accion::Guardar },
            Comando::Cargar => Respuesta { texto: String::new(), accion: Accion::Cargar },
            Comando::Agregar(d) => {
                let texto = match self.agregar_con_id(id, d.as_str()) {
                    Ok(()) => texto_hecho("\nTarea agregada: ", d.as_str(), "\n"),
                    Err(e) => texto_rechazo(e, false),
                };
                Respuesta { texto, accion: Accion::Seguir }
            },
            Comando::AgregarSubtarea(p, d) => {
                let texto = match self.agregar_subtarea_con_id(*p, id, d.as_str()) {
                    Ok(()) => texto_hecho("\nSubtarea agregada: ", d.as_str(), "\n"),
                    Err(e) => texto_rechazo(e, true),
                };
                Respuesta { texto, accion: Accion::Seguir }
            },
            Comando::Completar(p) => {
                let texto = match self.completar(*p) {
                    Ok(()) => texto_tarea(*p, " marcada como completada.\n"),
                    Err(e) => texto_rechazo(e, false),
                };
                Respuesta { texto, accion: Accion::Seguir }
            },
            Comando::Etiquetar(p, e) => {
                let texto = match self.etiquetar(*p, e.as_str()) {
                    Ok(()) => {
                        let mut s = texto_tarea(*p, " etiquetada con ");
                        s.append(e.as_str());
                        s.append(".\n");
                        s
                    },
                    Err(e) => texto_rechazo(e, false),
                };
                Respuesta { texto, accion: Accion::Seguir }
            },
            Comando::Priorizar(p, n) => {
                let texto = match self.priorizar(*p, *n) {
                    Ok(()) => {
                        let mut s = texto_tarea(*p, " priorizada con ");
                        agregar_decimal(&mut s, *n as u64);
                        s.append(".\n");
                        s
                    },
                    Err(e) => texto_rechazo(e, false),
                };
                Respuesta { texto, accion: Accion::Seguir }
            },
            Comando::Reordenar => {
                self.reordenar();
                Respuesta { texto: self.texto_listar(), accion: Accion::Seguir }
            },
            Comando::Invalido(e) => Respuesta { texto: texto_error(*e), accion: Accion::Seguir },
        }
    }

    /// Carries out a command; a task that it adds gets a new random
    /// identifier. Storage is left to the caller, as the answer says.
    pub fn ejecutar(&mut self, comando: &Comando) -> (r: Respuesta)
        ensures
            final(self)@ == estado_tras(old(self)@, comando@, final(self)@.last().id),
            r.texto@ == mensaje(comando@, old(self)@),
            r.accion == accion_de(comando@),
    {
        match comando {
            Comando::Agregar(_) => self.ejecutar_con_id(comando, identificador_nuevo()),
            Comando::AgregarSubtarea(_, _) => self.ejecutar_con_id(comando, identificador_nuevo()),
            _ => self.ejecutar_con_id(comando, String::new()),
        }
    }
}

} // verus!
