//! The commands of the task list: how a line of input is read as a command.

use crate::texto::{
    agregar_unidas, en_blanco, espacio, leer_numero, numero, palabras, palabras_de,
    palabras_sin_espacios, textos, unir,
};
use vstd::prelude::*;
use vstd::string::*;

verus! {

/// Why a line of input is no command.
#[derive(Debug, Clone, Copy, PartialEq, Eq, Structural)]
pub enum ErrorComando {
    /// `agregar` without a description.
    FaltaDescripcion,
    /// `agregar_subtarea` without a position and a description.
    FaltanPadreYDescripcion,
    /// `agregar_subtarea` with a position that is no number.
    PadreNoNumerico,
    /// A position that is missing or no number.
    IdNoNumerico,
    /// `etiquetar` without a position and a tag.
    FaltanIdYEtiqueta,
    /// `priorizar` without a position and a priority.
    FaltanIdYPrioridad,
    /// `priorizar` with a priority that is no number.
    PrioridadNoNumerica,
    /// The first word names no command.
    NoReconocido,
}

/// One command, with its arguments.
#[derive(Debug, Clone, PartialEq, Eq)]
pub enum Comando {
    /// A line without words.
    Vacio,
    Ayuda,
    Salir,
    Listar,
    Guardar,
    Cargar,
    Agregar(String),
    AgregarSubtarea(usize, String),
    Completar(usize),
    Etiquetar(usize, String),
    Priorizar(usize, u32),
    Reordenar,
    Invalido(ErrorComando),
}

/// What a command holds, as plain values.
pub ghost enum ComandoView {
    Vacio,
    Ayuda,
    Salir,
    Listar,
    Guardar,
    Cargar,
    Agregar(Seq<char>),
    AgregarSubtarea(usize, Seq<char>),
    Completar(usize),
    Etiquetar(usize, Seq<char>),
    Priorizar(usize, u32),
    Reordenar,
    Invalido(ErrorComando),
}

impl View for Comando {
    type V = ComandoView;

    open spec fn view(&self) -> ComandoView {
        match self {
            Comando::Vacio => ComandoView::Vacio,
            Comando::Ayuda => ComandoView::Ayuda,
            Comando::Salir => ComandoView::Salir,
            Comando::Listar => ComandoView::Listar,
            Comando::Guardar => ComandoView::Guardar,
            Comando::Cargar => ComandoView::Cargar,
            Comando::Agregar(d) => ComandoView::Agregar(d@),
            Comando::AgregarSubtarea(p, d) => ComandoView::AgregarSubtarea(*p, d@),
            Comando::Completar(p) => ComandoView::Completar(*p),
            Comando::Etiquetar(p, e) => ComandoView::Etiquetar(*p, e@),
            Comando::Priorizar(p, n) => ComandoView::Priorizar(*p, *n),
            Comando::Reordenar => ComandoView::Reordenar,
            Comando::Invalido(e) => ComandoView::Invalido(*e),
        }
    }
}

/// The words from the one at `desde` on, joined by single spaces.
pub open spec fn resto(palabras: Seq<Seq<char>>, desde: int) -> Seq<char> {
    unir(palabras.skip(desde), " "@)
}

/// A position, read from its decimal text.
pub open spec fn posicion_de(palabra: Seq<char>) -> Option<usize> {
    match numero(palabra, usize::MAX as nat) {
        Some(n) => Some(n as usize),
        None => None,
    }
}

/// A priority, read from its decimal text.
pub open spec fn prioridad_de(palabra: Seq<char>) -> Option<u32> {
    match numero(palabra, u32::MAX as nat) {
        Some(n) => Some(n as u32),
        None => None,
    }
}

/// The command that a line of the given words stands for. The first word
/// names the command; a description or a tag is the rest of the words,
/// joined by single spaces.
pub open spec fn comando_de(p: Seq<Seq<char>>) -> ComandoView {
    if p.len() == 0 {
        ComandoView::Vacio
    } else if p[0] == "h"@ {
        ComandoView::Ayuda
    } else if p[0] == "salir"@ {
        ComandoView::Salir
    } else if p[0] == "listar"@ {
        ComandoView::Listar
    } else if p[0] == "guardar"@ {
        ComandoView::Guardar
    } else if p[0] == "cargar"@ {
        ComandoView::Cargar
    } else if p[0] == "agregar"@ {
        if p.len() < 2 {
            ComandoView::Invalido(ErrorComando::FaltaDescripcion)
        } else {
            ComandoView::Agregar(resto(p, 1))
        }
    } else if p[0] == "agregar_subtarea"@ {
        if p.len() < 3 {
            ComandoView::Invalido(ErrorComando::FaltanPadreYDescripcion)
        } else {
            match posicion_de(p[1]) {
                Some(padre) => ComandoView::AgregarSubtarea(padre, resto(p, 2)),
                None => ComandoView::Invalido(ErrorComando::PadreNoNumerico),
            }
        }
    } else if p[0] == "completar"@ {
        if p.len() < 2 {
            ComandoView::Invalido(ErrorComando::IdNoNumerico)
        } else {
            match posicion_de(p[1]) {
                Some(id) => ComandoView::Completar(id),
                None => ComandoView::Invalido(ErrorComando::IdNoNumerico),
            }
        }
    } else if p[0] == "etiquetar"@ {
        if p.len() < 3 {
            ComandoView::Invalido(ErrorComando::FaltanIdYEtiqueta)
        } else {
            match posicion_de(p[1]) {
                Some(id) => ComandoView::Etiquetar(id, resto(p, 2)),
                None => ComandoView::Invalido(ErrorComando::IdNoNumerico),
            }
        }
    } else if p[0] == "reordenar"@ {
        ComandoView::Reordenar
    } else if p[0] == "priorizar"@ {
        if p.len() < 3 {
            ComandoView::Invalido(ErrorComando::FaltanIdYPrioridad)
        } else {
            match posicion_de(p[1]) {
                Some(id) => match prioridad_de(p[2]) {
                    Some(prioridad) => ComandoView::Priorizar(id, prioridad),
                    None => ComandoView::Invalido(ErrorComando::PrioridadNoNumerica),
                },
                None => ComandoView::Invalido(ErrorComando::IdNoNumerico),
            }
        }
    } else {
        ComandoView::Invalido(ErrorComando::NoReconocido)
    }
}

fn es(palabra: &String, texto: &str) -> (r: bool)
    ensures
        r == (palabra@ == texto@),
{
    let t = String::from_str(texto);
    *palabra == t
}

fn leer_resto(palabras: &Vec<String>, desde: usize) -> (r: String)
    requires
        desde <= palabras.len(),
    ensures
        r@ == resto(textos(palabras@), desde as int),
{
    let mut s = String::new();
    agregar_unidas(&mut s, palabras, desde, " ");
    assert(s@ =~= resto(textos(palabras@), desde as int));
    s
}

/// Reads a position from its decimal text.
pub fn leer_posicion(palabra: &str) -> (r: Option<usize>)
    ensures
        r == posicion_de(palabra@),
{
    match leer_numero(palabra, usize::MAX as u64) {
        Some(n) => Some(n as usize),
        None => None,
    }
}

/// Reads a priority from its decimal text.
pub fn leer_prioridad(palabra: &str) -> (r: Option<u32>)
    ensures
        r == prioridad_de(palabra@),
{
    match leer_numero(palabra, u32::MAX as u64) {
        Some(n) => Some(n as u32),
        None => None,
    }
}

/// The command that a line of the given words stands for.
pub fn interpretar_palabras(palabras: &Vec<String>) -> (r: Comando)
    ensures
        r@ == comando_de(textos(palabras@)),
{
    let n: usize = palabras.len();
    if n == 0 {
        return Comando::Vacio;
    }
    let primera = &palabras[0];
    assert(textos(palabras@)[0] == primera@);
    if es(primera, "h") {
        Comando::Ayuda
    } else if es(primera, "salir") {
        Comando::Salir
    } else if es(primera, "listar") {
        Comando::Listar
    } else if es(primera, "guardar") {
        Comando::Guardar
    } else if es(primera, "cargar") {
        Comando::Cargar
    } else if es(primera, "agregar") {
        if n < 2 {
            Comando::Invalido(ErrorComando::FaltaDescripcion)
        } else {
            Comando::Agregar(leer_resto(palabras, 1))
        }
    } else if es(primera, "agregar_subtarea") {
        if n < 3 {
            Comando::Invalido(ErrorComando::FaltanPadreYDescripcion)
        } else {
            assert(textos(palabras@)[1] == palabras[1]@);
            match leer_posicion(palabras[1].as_str()) {
                Some(padre) => Comando::AgregarSubtarea(padre, leer_resto(palabras, 2)),
                None => Comando::Invalido(ErrorComando::PadreNoNumerico),
            }
        }
    } else if es(primera, "completar") {
        if n < 2 {
            Comando::Invalido(ErrorComando::IdNoNumerico)
        } else {
            assert(textos(palabras@)[1] == palabras[1]@);
            match leer_posicion(palabras[1].as_str()) {
                Some(id) => Comando::Completar(id),
                None => Comando::Invalido(ErrorComando::IdNoNumerico),
            }
        }
    } else if es(primera, "etiquetar") {
        if n < 3 {
            Comando::Invalido(ErrorComando::FaltanIdYEtiqueta)
        } else {
            assert(textos(palabras@)[1] == palabras[1]@);
            match leer_posicion(palabras[1].as_str()) {
                Some(id) => Comando::Etiquetar(id, leer_resto(palabras, 2)),
                None => Comando::Invalido(ErrorComando::IdNoNumerico),
            }
        }
    } else if es(primera, "reordenar") {
        Comando::Reordenar
    } else if es(primera, "priorizar") {
        if n < 3 {
            Comando::Invalido(ErrorComando::FaltanIdYPrioridad)
        } else {
            assert(textos(palabras@)[1] == palabras[1]@);
            assert(textos(palabras@)[2] == palabras[2]@);
            match leer_posicion(palabras[1].as_str()) {
                Some(id) => match leer_prioridad(palabras[2].as_str()) {
                    Some(prioridad) => Comando::Priorizar(id, prioridad),
                    None => Comando::Invalido(ErrorComando::PrioridadNoNumerica),
                },
                None => Comando::Invalido(ErrorComando::IdNoNumerico),
            }
        }
    } else {
        Comando::Invalido(ErrorComando::NoReconocido)
    }
}

/// The command that a line of input stands for.
pub fn interpretar(linea: &str) -> (r: Comando)
    ensures
        r@ == comando_de(palabras_de(linea@)),
{
    let p = palabras(linea);
    interpretar_palabras(&p)
}

/// Parts of which the last holds a character that is not whitespace join to
/// a text that holds one.
pub proof fn unir_no_en_blanco(partes: Seq<Seq<char>>, separador: Seq<char>)
    requires
        partes.len() > 0,
        !en_blanco(partes.last()),
    ensures
        !en_blanco(unir(partes, separador)),
{
    let ultima = partes.last();
    let i = choose|i: int| 0 <= i < ultima.len() && !espacio(#[trigger] ultima[i]);
    let todo = unir(partes, separador);
    if partes.len() == 1 {
        assert(todo[i] == ultima[i]);
    } else {
        let antes = unir(partes.drop_last(), separador) + separador;
        assert(todo[antes.len() + i] == ultima[i]);
    }
}

/// A line never stands for adding a task whose description holds nothing but
/// whitespace: `agregar` alone, as on a line that holds only whitespace
/// after it, is no command.
pub proof fn agregar_nunca_vacia(linea: Seq<char>)
    ensures
        match comando_de(palabras_de(linea)) {
            ComandoView::Agregar(d) => !en_blanco(d),
            ComandoView::AgregarSubtarea(_, d) => !en_blanco(d),
            _ => true,
        },
{
    let p = palabras_de(linea);
    palabras_sin_espacios(linea, Seq::empty());
    if p.len() >= 2 {
        let u = p.last();
        assert(crate::texto::sin_espacios(u));
        assert(!espacio(u[0]));
        assert(p.skip(1).last() == u);
        unir_no_en_blanco(p.skip(1), " "@);
    }
    if p.len() >= 3 {
        assert(p.skip(2).last() == p.last());
        unir_no_en_blanco(p.skip(2), " "@);
    }
}

/// A `completar` that is followed by no number is no command, whatever else
/// the line holds.
pub proof fn completar_sin_numero(p: Seq<Seq<char>>)
    requires
        p.len() >= 1,
        p[0] == "completar"@,
        p.len() < 2 || posicion_de(p[1]).is_none(),
    ensures
        comando_de(p) == ComandoView::Invalido(ErrorComando::IdNoNumerico),
{
    reveal_strlit("completar");
    reveal_strlit("h");
    reveal_strlit("salir");
    reveal_strlit("listar");
    reveal_strlit("guardar");
    reveal_strlit("cargar");
    reveal_strlit("agregar");
    reveal_strlit("agregar_subtarea");
    assert("completar"@.len() == 9);
    assert("h"@.len() == 1);
    assert("salir"@.len() == 5);
    assert("listar"@.len() == 6);
    assert("guardar"@.len() == 7);
    assert("cargar"@.len() == 6);
    assert("agregar"@.len() == 7);
    assert("agregar_subtarea"@.len() == 16);
}

/// A text that holds a character other than a digit, after the plus sign that
/// it may start with, is no number.
pub proof fn no_es_numero(s: Seq<char>, i: int)
    requires
        0 <= i < s.len(),
        !crate::texto::es_cifra(s[i]),
        i > 0 || s[0] != '+',
    ensures
        posicion_de(s).is_none(),
        prioridad_de(s).is_none(),
{
    let cifras = crate::texto::sin_signo(s);
    if s[0] == '+' {
        assert(cifras[i - 1] == s[i]);
    } else {
        assert(cifras[i] == s[i]);
    }
}

} // verus!
