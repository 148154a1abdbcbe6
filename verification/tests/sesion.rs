use gestor_tareas::comando::{interpretar, Comando, ErrorComando};
use gestor_tareas::sesion::{texto_error, texto_rechazo, Accion};
use gestor_tareas::tarea::ErrorTarea;
use gestor_tareas::tareas::Tareas;

fn orden(tareas: &mut Tareas, linea: &str) -> String {
    let r = tareas.ejecutar(&interpretar(linea));
    assert_eq!(r.accion, Accion::Seguir);
    r.texto
}

#[test]
fn escenario_agregar_priorizar_completar() {
    let mut t = Tareas::new();
    assert_eq!(orden(&mut t, "agregar Comprar pan\n"), "\nTarea agregada: Comprar pan\n");
    assert_eq!(orden(&mut t, "listar\n"), "\nLista de Tareas:\n[ ] 1: Comprar pan\n");
    assert_eq!(orden(&mut t, "priorizar 1 5\n"), "\nTarea 1 priorizada con 5.\n");
    assert_eq!(orden(&mut t, "completar 1\n"), "\nTarea 1 marcada como completada.\n");
    assert_eq!(
        orden(&mut t, "listar\n"),
        "\nLista de Tareas:\n[X] 1: Comprar pan - priority: 5\n"
    );
}

#[test]
fn escenario_subtarea_indentada() {
    let mut t = Tareas::new();
    orden(&mut t, "agregar Tarea A\n");
    orden(&mut t, "agregar Tarea B\n");
    assert_eq!(
        orden(&mut t, "agregar_subtarea 2 Subtarea B1\n"),
        "\nSubtarea agregada: Subtarea B1\n"
    );
    assert_eq!(
        orden(&mut t, "listar\n"),
        "\nLista de Tareas:\n[ ] 1: Tarea A\n[ ] 2: Tarea B\n  [ ] 3: Subtarea B1\n"
    );
}

#[test]
fn escenario_padre_invalido() {
    let mut t = Tareas::new();
    orden(&mut t, "agregar a\n");
    orden(&mut t, "agregar b\n");
    let antes = t.clone();
    assert_eq!(orden(&mut t, "agregar_subtarea 99 x\n"), "\nID de tarea padre no válido.\n");
    assert_eq!(t.tareas.len(), 2);
    assert_eq!(t, antes);
}

#[test]
fn escenario_completar_con_id_no_numerico() {
    let mut t = Tareas::new();
    orden(&mut t, "agregar a\n");
    let antes = t.clone();
    assert_eq!(interpretar("completar abc\n"), Comando::Invalido(ErrorComando::IdNoNumerico));
    assert_eq!(orden(&mut t, "completar abc\n"), "\nID inválido. Debe ser un número.\n");
    assert_eq!(t, antes);
}

#[test]
fn agregar_solo_espacios_no_crece() {
    let mut t = Tareas::new();
    assert_eq!(orden(&mut t, "agregar     \n"), "\nLa descripción es requerida.\n");
    assert_eq!(orden(&mut t, "   \n"), "");
    assert!(t.tareas.is_empty());
    let r = t.ejecutar(&Comando::Agregar(String::new()));
    assert_eq!(r.texto, "\nLa descripción de la tarea no puede estar vacía.\n");
    let r = t.ejecutar(&Comando::Agregar(String::from("  \t")));
    assert_eq!(r.texto, "\nLa descripción de la tarea no puede estar vacía.\n");
    assert!(t.tareas.is_empty());
}

#[test]
fn posicion_fuera_de_rango() {
    let mut t = Tareas::new();
    orden(&mut t, "agregar a\n");
    let antes = t.clone();
    assert_eq!(orden(&mut t, "completar 2\n"), "\nID de tarea no válido.\n");
    assert_eq!(orden(&mut t, "completar 0\n"), "\nID de tarea no válido.\n");
    assert_eq!(orden(&mut t, "etiquetar 5 x\n"), "\nID de tarea no válido.\n");
    assert_eq!(orden(&mut t, "priorizar 9 1\n"), "\nID de tarea no válido.\n");
    assert_eq!(t, antes);
}

#[test]
fn etiquetar_y_listar() {
    let mut t = Tareas::new();
    orden(&mut t, "agregar a\n");
    assert_eq!(orden(&mut t, "etiquetar 1 casa\n"), "\nTarea 1 etiquetada con casa.\n");
    assert_eq!(orden(&mut t, "etiquetar 1 muy urgente\n"), "\nTarea 1 etiquetada con muy urgente.\n");
    assert_eq!(
        orden(&mut t, "listar\n"),
        "\nLista de Tareas:\n[ ] 1: a (tags: casa, muy urgente)\n"
    );
}

#[test]
fn reordenar_ordena_y_lista() {
    let mut t = Tareas::new();
    orden(&mut t, "agregar a\n");
    orden(&mut t, "agregar b\n");
    orden(&mut t, "completar 1\n");
    assert_eq!(orden(&mut t, "reordenar\n"), "\nLista de Tareas:\n[ ] 1: b\n[X] 2: a\n");
    assert_eq!(t.tareas[0].descripcion, "b");
}

#[test]
fn lista_vacia_muestra_solo_el_titulo() {
    let mut t = Tareas::new();
    assert_eq!(orden(&mut t, "listar\n"), "\nLista de Tareas:\n");
    assert_eq!(t.texto_listar(), "\nLista de Tareas:\n");
}

#[test]
fn acciones_de_almacenamiento() {
    let mut t = Tareas::new();
    t.agregar("a").unwrap();
    let antes = t.clone();
    let r = t.ejecutar(&interpretar("guardar\n"));
    assert_eq!((r.texto.as_str(), r.accion), ("", Accion::Guardar));
    let r = t.ejecutar(&interpretar("cargar\n"));
    assert_eq!((r.texto.as_str(), r.accion), ("", Accion::Cargar));
    let r = t.ejecutar(&interpretar("salir\n"));
    assert_eq!((r.texto.as_str(), r.accion), ("\nSaliendo del gestor de tareas\n", Accion::Salir));
    assert_eq!(t, antes);
}

#[test]
fn ayuda_lista_los_comandos() {
    let mut t = Tareas::new();
    let texto = orden(&mut t, "h\n");
    assert!(texto.starts_with("\nComandos disponibles:\n  agregar          <descripcion>\n"));
    assert!(texto.ends_with("  guardar\n  salir\n"));
    assert_eq!(texto.lines().count(), 11);
}

#[test]
fn ejecutar_con_id_usa_el_identificador() {
    let mut t = Tareas::new();
    t.ejecutar_con_id(&Comando::Agregar(String::from("a")), String::from("uno"));
    t.ejecutar_con_id(&Comando::AgregarSubtarea(1, String::from("b")), String::from("dos"));
    assert_eq!(t.tareas[0].id, "uno");
    assert_eq!(t.tareas[1].id, "dos");
    assert_eq!(t.tareas[1].parent_id, Some(String::from("uno")));
    let r = t.ejecutar_con_id(&Comando::AgregarSubtarea(3, String::new()), String::from("x"));
    assert_eq!(r.texto, "\nID de tarea padre no válido.\n");
    let r = t.ejecutar_con_id(&Comando::AgregarSubtarea(1, String::new()), String::from("x"));
    assert_eq!(r.texto, "\nLa descripción de la tarea no puede estar vacía.\n");
    assert_eq!(t.tareas.len(), 2);
}

#[test]
fn textos_de_cada_error() {
    assert_eq!(texto_error(ErrorComando::FaltaDescripcion), "\nLa descripción es requerida.\n");
    assert_eq!(
        texto_error(ErrorComando::FaltanPadreYDescripcion),
        "\nID de la tarea padre y descripción son requeridos.\n"
    );
    assert_eq!(
        texto_error(ErrorComando::PadreNoNumerico),
        "\nID de la tarea padre inválido. Debe ser un número.\n"
    );
    assert_eq!(texto_error(ErrorComando::IdNoNumerico), "\nID inválido. Debe ser un número.\n");
    assert_eq!(texto_error(ErrorComando::FaltanIdYEtiqueta), "\nID y etiqueta son requeridos.\n");
    assert_eq!(texto_error(ErrorComando::FaltanIdYPrioridad), "\nID y prioridad son requeridos.\n");
    assert_eq!(
        texto_error(ErrorComando::PrioridadNoNumerica),
        "\nPrioridad inválida. Debe ser un número.\n"
    );
    assert_eq!(
        texto_error(ErrorComando::NoReconocido),
        "\nComando no reconocido. Intenta de nuevo.\n"
    );
    assert_eq!(
        texto_rechazo(ErrorTarea::DescripcionVacia, false),
        "\nLa descripción de la tarea no puede estar vacía.\n"
    );
    assert_eq!(texto_rechazo(ErrorTarea::PosicionInvalida, false), "\nID de tarea no válido.\n");
    assert_eq!(texto_rechazo(ErrorTarea::PosicionInvalida, true), "\nID de tarea padre no válido.\n");
}
