use gestor_tareas::comando::{
    interpretar, interpretar_palabras, leer_posicion, leer_prioridad, Comando, ErrorComando,
};
use gestor_tareas::texto::leer_numero;

#[test]
fn linea_vacia_no_es_comando() {
    assert_eq!(interpretar(""), Comando::Vacio);
    assert_eq!(interpretar("   \t \n"), Comando::Vacio);
    assert_eq!(interpretar_palabras(&vec![]), Comando::Vacio);
}

#[test]
fn comandos_sin_argumentos() {
    assert_eq!(interpretar("h\n"), Comando::Ayuda);
    assert_eq!(interpretar("salir\n"), Comando::Salir);
    assert_eq!(interpretar("listar\n"), Comando::Listar);
    assert_eq!(interpretar("  guardar  \n"), Comando::Guardar);
    assert_eq!(interpretar("cargar"), Comando::Cargar);
    assert_eq!(interpretar("reordenar\n"), Comando::Reordenar);
    assert_eq!(interpretar("listar de mas\n"), Comando::Listar);
}

#[test]
fn comando_no_reconocido() {
    assert_eq!(interpretar("borrar 1\n"), Comando::Invalido(ErrorComando::NoReconocido));
    assert_eq!(interpretar("H\n"), Comando::Invalido(ErrorComando::NoReconocido));
    assert_eq!(interpretar("listar1\n"), Comando::Invalido(ErrorComando::NoReconocido));
}

#[test]
fn agregar_toma_el_resto_de_la_linea() {
    assert_eq!(
        interpretar("agregar Comprar pan\n"),
        Comando::Agregar(String::from("Comprar pan"))
    );
    assert_eq!(
        interpretar("  agregar   Comprar \t  pan  integral \n"),
        Comando::Agregar(String::from("Comprar pan integral"))
    );
    assert_eq!(interpretar("agregar x"), Comando::Agregar(String::from("x")));
}

#[test]
fn agregar_sin_descripcion() {
    assert_eq!(interpretar("agregar\n"), Comando::Invalido(ErrorComando::FaltaDescripcion));
    assert_eq!(interpretar("agregar    \n"), Comando::Invalido(ErrorComando::FaltaDescripcion));
}

#[test]
fn agregar_subtarea_con_padre_y_descripcion() {
    assert_eq!(
        interpretar("agregar_subtarea 2 Subtarea B1\n"),
        Comando::AgregarSubtarea(2, String::from("Subtarea B1"))
    );
    assert_eq!(
        interpretar("agregar_subtarea 99 x\n"),
        Comando::AgregarSubtarea(99, String::from("x"))
    );
    assert_eq!(
        interpretar("agregar_subtarea 2\n"),
        Comando::Invalido(ErrorComando::FaltanPadreYDescripcion)
    );
    assert_eq!(
        interpretar("agregar_subtarea\n"),
        Comando::Invalido(ErrorComando::FaltanPadreYDescripcion)
    );
    assert_eq!(
        interpretar("agregar_subtarea dos x\n"),
        Comando::Invalido(ErrorComando::PadreNoNumerico)
    );
}

#[test]
fn completar_con_id_no_numerico() {
    assert_eq!(interpretar("completar abc\n"), Comando::Invalido(ErrorComando::IdNoNumerico));
    assert_eq!(interpretar("completar\n"), Comando::Invalido(ErrorComando::IdNoNumerico));
    assert_eq!(interpretar("completar -1\n"), Comando::Invalido(ErrorComando::IdNoNumerico));
    assert_eq!(interpretar("completar 1.5\n"), Comando::Invalido(ErrorComando::IdNoNumerico));
    assert_eq!(interpretar("completar 3\n"), Comando::Completar(3));
    assert_eq!(interpretar("completar 0\n"), Comando::Completar(0));
    assert_eq!(interpretar("completar 3 4\n"), Comando::Completar(3));
}

#[test]
fn etiquetar_con_id_y_etiqueta() {
    assert_eq!(
        interpretar("etiquetar 1 muy  urgente\n"),
        Comando::Etiquetar(1, String::from("muy urgente"))
    );
    assert_eq!(interpretar("etiquetar 1\n"), Comando::Invalido(ErrorComando::FaltanIdYEtiqueta));
    assert_eq!(interpretar("etiquetar x y\n"), Comando::Invalido(ErrorComando::IdNoNumerico));
}

#[test]
fn priorizar_con_id_y_prioridad() {
    assert_eq!(interpretar("priorizar 1 5\n"), Comando::Priorizar(1, 5));
    assert_eq!(interpretar("priorizar 1 4294967295\n"), Comando::Priorizar(1, 4294967295));
    assert_eq!(
        interpretar("priorizar 1 4294967296\n"),
        Comando::Invalido(ErrorComando::PrioridadNoNumerica)
    );
    assert_eq!(
        interpretar("priorizar 1 alta\n"),
        Comando::Invalido(ErrorComando::PrioridadNoNumerica)
    );
    assert_eq!(interpretar("priorizar x 5\n"), Comando::Invalido(ErrorComando::IdNoNumerico));
    assert_eq!(interpretar("priorizar x y\n"), Comando::Invalido(ErrorComando::IdNoNumerico));
    assert_eq!(interpretar("priorizar 1\n"), Comando::Invalido(ErrorComando::FaltanIdYPrioridad));
}

#[test]
fn interpretar_palabras_dadas() {
    let palabras = vec![String::from("etiquetar"), String::from("7"), String::from("a")];
    assert_eq!(interpretar_palabras(&palabras), Comando::Etiquetar(7, String::from("a")));
    let palabras = vec![String::from("agregar"), String::from("a"), String::from("b")];
    assert_eq!(interpretar_palabras(&palabras), Comando::Agregar(String::from("a b")));
}

#[test]
fn leer_numero_como_la_biblioteca_estandar() {
    let casos = [
        "", "+", "-", "0", "+0", "-0", "7", "+7", "007", "12a", "a12", " 12", "1 2", "++1", "+-1",
        "255", "256", "1000", "99999999999999999999999", "18446744073709551615",
        "18446744073709551616", "4294967295", "4294967296", "١٢",
    ];
    for caso in casos {
        assert_eq!(leer_numero(caso, u64::MAX), caso.parse::<u64>().ok(), "{:?}", caso);
        assert_eq!(leer_posicion(caso), caso.parse::<usize>().ok(), "{:?}", caso);
        assert_eq!(leer_prioridad(caso), caso.parse::<u32>().ok(), "{:?}", caso);
        assert_eq!(
            leer_numero(caso, 255),
            caso.parse::<u8>().ok().map(u64::from),
            "{:?}",
            caso
        );
    }
}

#[test]
fn leer_numero_valores() {
    assert_eq!(leer_numero("0", 0), Some(0));
    assert_eq!(leer_numero("1", 0), None);
    assert_eq!(leer_numero("1234567890", u64::MAX), Some(1234567890));
    assert_eq!(leer_posicion("42"), Some(42));
    assert_eq!(leer_prioridad("+42"), Some(42));
}
