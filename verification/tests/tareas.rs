use gestor_tareas::orden::{ordenar_posiciones, posiciones_hijas, precede_en};
use gestor_tareas::tarea::{ErrorTarea, Tarea};
use gestor_tareas::tareas::Tareas;

fn lista(descripciones: &[&str]) -> Tareas {
    let mut t = Tareas::new();
    for (i, d) in descripciones.iter().enumerate() {
        assert_eq!(t.agregar_con_id(format!("id{}", i + 1), d), Ok(()));
    }
    t
}

#[test]
fn lista_nueva_vacia() {
    assert!(Tareas::new().tareas.is_empty());
    assert!(Tareas::new().listar().is_empty());
}

#[test]
fn agregar_crece_en_una() {
    let mut t = Tareas::new();
    assert_eq!(t.agregar("buy milk"), Ok(()));
    assert_eq!(t.tareas.len(), 1);
    let nueva = &t.tareas[0];
    assert_eq!(nueva.descripcion, "buy milk");
    assert!(!nueva.completada);
    assert_eq!(nueva.prioridad, 0);
    assert!(nueva.etiquetas.is_empty());
    assert_eq!(nueva.parent_id, None);
    assert_eq!(nueva.id.len(), 36);
}

#[test]
fn agregar_vacia_no_crece() {
    let mut t = lista(&["a"]);
    let antes = t.clone();
    assert_eq!(t.agregar(""), Err(ErrorTarea::DescripcionVacia));
    assert_eq!(t.agregar_con_id(String::from("z"), ""), Err(ErrorTarea::DescripcionVacia));
    assert_eq!(t, antes);
}

#[test]
fn agregar_descripcion_en_blanco_no_crece() {
    let mut t = Tareas::new();
    t.agregar("buy milk").unwrap();
    assert_eq!(t.agregar("   "), Err(ErrorTarea::DescripcionVacia));
    assert_eq!(t.agregar(" \t\n\u{a0}\u{3000}"), Err(ErrorTarea::DescripcionVacia));
    assert_eq!(t.agregar_con_id(String::from("z"), "  "), Err(ErrorTarea::DescripcionVacia));
    assert_eq!(t.agregar_subtarea(1, " "), Err(ErrorTarea::DescripcionVacia));
    assert_eq!(t.tareas.len(), 1);
    assert_eq!(t.tareas[0].descripcion, "buy milk");
    assert_eq!(t.agregar("  x "), Ok(()));
    assert_eq!(t.tareas[1].descripcion, "  x ");
}

#[test]
fn listar_prioridad_sin_fijar_va_primero() {
    let mut t = Tareas::new();
    t.agregar("A").unwrap();
    t.agregar("B").unwrap();
    t.priorizar(1, 5).unwrap();
    assert_eq!(t.listar(), vec!["[ ] 2: B\n", "[ ] 1: A - priority: 5\n"]);
    assert_eq!(t.tareas[0].descripcion, "A");
    assert_eq!(t.tareas[1].descripcion, "B");
    t.reordenar();
    assert_eq!(t.listar(), vec!["[ ] 1: B\n", "[ ] 2: A - priority: 5\n"]);
}

#[test]
fn agregar_da_identificadores_distintos() {
    let mut t = Tareas::new();
    t.agregar("a").unwrap();
    t.agregar("b").unwrap();
    assert_ne!(t.tareas[0].id, t.tareas[1].id);
}

#[test]
fn agregar_subtarea_enlaza_con_el_padre() {
    let mut t = lista(&["Tarea A", "Tarea B"]);
    assert_eq!(t.agregar_subtarea(2, "Subtarea B1"), Ok(()));
    assert_eq!(t.tareas.len(), 3);
    assert_eq!(t.tareas[2].parent_id, Some(String::from("id2")));
    assert_eq!(t.tareas[2].descripcion, "Subtarea B1");
    assert!(!t.tareas[2].completada);
    assert_eq!(t.tareas[2].prioridad, 0);
    assert_ne!(t.tareas[2].id, "id2");
}

#[test]
fn agregar_subtarea_con_padre_invalido() {
    let mut t = lista(&["a", "b"]);
    let antes = t.clone();
    assert_eq!(t.agregar_subtarea(99, "x"), Err(ErrorTarea::PosicionInvalida));
    assert_eq!(t.agregar_subtarea(0, "x"), Err(ErrorTarea::PosicionInvalida));
    assert_eq!(t.agregar_subtarea(3, "x"), Err(ErrorTarea::PosicionInvalida));
    assert_eq!(t.tareas.len(), 2);
    assert_eq!(t, antes);
}

#[test]
fn agregar_subtarea_mira_primero_la_posicion() {
    let mut t = lista(&["a"]);
    assert_eq!(t.agregar_subtarea(5, ""), Err(ErrorTarea::PosicionInvalida));
    assert_eq!(t.agregar_subtarea(1, ""), Err(ErrorTarea::DescripcionVacia));
    assert_eq!(
        t.agregar_subtarea_con_id(1, String::from("n"), ""),
        Err(ErrorTarea::DescripcionVacia)
    );
    assert_eq!(t.tareas.len(), 1);
}

#[test]
fn agregar_subtarea_bajo_una_subtarea() {
    let mut t = lista(&["a"]);
    t.agregar_subtarea_con_id(1, String::from("s1"), "hija").unwrap();
    t.agregar_subtarea_con_id(2, String::from("s2"), "nieta").unwrap();
    assert_eq!(t.tareas[1].parent_id, Some(String::from("id1")));
    assert_eq!(t.tareas[2].parent_id, Some(String::from("s1")));
    assert_eq!(t.tareas[2].id, "s2");
}

#[test]
fn completar_dos_veces_es_como_una() {
    let mut t = lista(&["a", "b", "c"]);
    t.priorizar(2, 4).unwrap();
    t.etiquetar(2, "x").unwrap();
    assert_eq!(t.completar(2), Ok(()));
    let una = t.clone();
    assert!(una.tareas[1].completada);
    assert!(!una.tareas[0].completada);
    assert!(!una.tareas[2].completada);
    assert_eq!(una.tareas[1].prioridad, 4);
    assert_eq!(una.tareas[1].etiquetas, vec!["x"]);
    assert_eq!(t.completar(2), Ok(()));
    assert_eq!(t, una);
}

#[test]
fn completar_fuera_de_rango() {
    let mut t = lista(&["a"]);
    let antes = t.clone();
    assert_eq!(t.completar(0), Err(ErrorTarea::PosicionInvalida));
    assert_eq!(t.completar(2), Err(ErrorTarea::PosicionInvalida));
    assert_eq!(t.completar(usize::MAX), Err(ErrorTarea::PosicionInvalida));
    assert_eq!(t, antes);
}

#[test]
fn priorizar_cambia_solo_la_prioridad() {
    let mut t = lista(&["a", "b"]);
    assert_eq!(t.priorizar(1, 7), Ok(()));
    assert_eq!(t.tareas[0].prioridad, 7);
    assert_eq!(t.tareas[1].prioridad, 0);
    assert_eq!(t.tareas[0].descripcion, "a");
    assert_eq!(t.priorizar(1, 0), Ok(()));
    assert_eq!(t.tareas[0].prioridad, 0);
    assert_eq!(t.priorizar(3, 1), Err(ErrorTarea::PosicionInvalida));
    assert_eq!(t.priorizar(0, 1), Err(ErrorTarea::PosicionInvalida));
}

#[test]
fn etiquetar_por_posicion() {
    let mut t = lista(&["a", "b"]);
    assert_eq!(t.etiquetar(2, "casa"), Ok(()));
    assert_eq!(t.etiquetar(2, "casa"), Ok(()));
    assert_eq!(t.tareas[1].etiquetas, vec!["casa", "casa"]);
    assert!(t.tareas[0].etiquetas.is_empty());
    assert_eq!(t.etiquetar(3, "x"), Err(ErrorTarea::PosicionInvalida));
    assert_eq!(t.etiquetar(0, "x"), Err(ErrorTarea::PosicionInvalida));
}

#[test]
fn escenario_comprar_pan() {
    let mut t = Tareas::new();
    t.agregar("Comprar pan").unwrap();
    assert_eq!(t.listar(), vec!["[ ] 1: Comprar pan\n"]);
    t.priorizar(1, 5).unwrap();
    t.completar(1).unwrap();
    assert_eq!(t.listar(), vec!["[X] 1: Comprar pan - priority: 5\n"]);
}

#[test]
fn escenario_subtarea_bajo_su_padre() {
    let mut t = Tareas::new();
    t.agregar("Tarea A").unwrap();
    t.agregar("Tarea B").unwrap();
    t.agregar_subtarea(2, "Subtarea B1").unwrap();
    assert_eq!(
        t.listar(),
        vec!["[ ] 1: Tarea A\n", "[ ] 2: Tarea B\n", "  [ ] 3: Subtarea B1\n"]
    );
}

#[test]
fn listar_ordena_y_conserva_posiciones() {
    let mut t = lista(&["a", "b", "c", "d"]);
    t.completar(1).unwrap();
    t.priorizar(2, 3).unwrap();
    t.priorizar(4, 1).unwrap();
    assert_eq!(
        t.listar(),
        vec![
            "[ ] 3: c\n",
            "[ ] 4: d - priority: 1\n",
            "[ ] 2: b - priority: 3\n",
            "[X] 1: a\n",
        ]
    );
}

#[test]
fn listar_arbol_de_varios_niveles() {
    let mut t = lista(&["raiz", "otra"]);
    t.agregar_subtarea_con_id(1, String::from("h1"), "hija 1").unwrap();
    t.agregar_subtarea_con_id(3, String::from("n1"), "nieta").unwrap();
    t.agregar_subtarea_con_id(1, String::from("h2"), "hija 2").unwrap();
    t.agregar_subtarea_con_id(4, String::from("b1"), "bisnieta").unwrap();
    t.completar(3).unwrap();
    t.etiquetar(5, "ya").unwrap();
    assert_eq!(
        t.listar(),
        vec![
            "[ ] 1: raiz\n",
            "  [ ] 5: hija 2 (tags: ya)\n",
            "  [X] 3: hija 1\n",
            "    [ ] 4: nieta\n",
            "      [ ] 6: bisnieta\n",
            "[ ] 2: otra\n",
        ]
    );
}

#[test]
fn mostrar_subtareas_de_una_hoja() {
    let mut t = lista(&["a", "b"]);
    t.agregar_subtarea_con_id(1, String::from("h"), "hija").unwrap();
    assert!(t.mostrar_subtareas("id2", 1).is_empty());
    assert!(t.mostrar_subtareas("h", 2).is_empty());
    assert!(t.mostrar_subtareas("nadie", 0).is_empty());
    assert!(Tareas::new().mostrar_subtareas("x", usize::MAX).is_empty());
}

#[test]
fn mostrar_subtareas_sigue_la_cadena_hasta_el_final() {
    let mut t = lista(&["a"]);
    t.agregar_subtarea_con_id(1, String::from("h"), "hija").unwrap();
    t.agregar_subtarea_con_id(2, String::from("n"), "nieta").unwrap();
    t.agregar_subtarea_con_id(3, String::from("b"), "bisnieta").unwrap();
    assert_eq!(
        t.mostrar_subtareas("id1", 1),
        vec!["  [ ] 2: hija\n", "    [ ] 3: nieta\n", "      [ ] 4: bisnieta\n"]
    );
    assert_eq!(t.mostrar_subtareas("h", 0), vec!["[ ] 3: nieta\n", "  [ ] 4: bisnieta\n"]);
    assert_eq!(t.mostrar_subtareas("n", 5), vec!["          [ ] 4: bisnieta\n"]);
}

#[test]
fn listar_termina_con_padres_en_ciclo() {
    let mut t = lista(&["a", "b", "c"]);
    t.tareas[1].parent_id = Some(String::from("id3"));
    t.tareas[2].parent_id = Some(String::from("id2"));
    assert_eq!(t.listar(), vec!["[ ] 1: a\n"]);
    assert_eq!(
        t.mostrar_subtareas("id2", 0),
        vec!["[ ] 3: c\n", "  [ ] 2: b\n", "    [ ] 3: c\n"]
    );
}

#[test]
fn reordenar_es_estable() {
    let mut t = lista(&["a", "b", "c", "d", "e"]);
    t.completar(1).unwrap();
    t.priorizar(2, 2).unwrap();
    t.priorizar(4, 2).unwrap();
    t.completar(5).unwrap();
    t.reordenar();
    let orden: Vec<&str> = t.tareas.iter().map(|x| x.descripcion.as_str()).collect();
    assert_eq!(orden, vec!["c", "b", "d", "a", "e"]);
    assert_eq!(t.tareas[1].id, "id2");
    assert_eq!(t.tareas[1].prioridad, 2);
    assert!(t.tareas[3].completada);
    let una = t.clone();
    t.reordenar();
    assert_eq!(t, una);
}

#[test]
fn reordenar_cambia_las_posiciones_mostradas() {
    let mut t = lista(&["a", "b"]);
    t.completar(1).unwrap();
    assert_eq!(t.listar(), vec!["[ ] 2: b\n", "[X] 1: a\n"]);
    t.reordenar();
    assert_eq!(t.listar(), vec!["[ ] 1: b\n", "[X] 2: a\n"]);
}

#[test]
fn guardar_y_cargar_reproducen_la_lista() {
    let mut t = lista(&["a", "b"]);
    t.agregar_subtarea(1, "hija").unwrap();
    t.completar(2).unwrap();
    t.priorizar(3, 9).unwrap();
    t.etiquetar(1, "x").unwrap();
    let registros = t.guardar();
    assert_eq!(registros, t.tareas);
    let otra = Tareas::cargar(Some(registros));
    assert_eq!(otra, t);
}

#[test]
fn cargar_sin_contenido_da_lista_vacia() {
    assert_eq!(Tareas::cargar(None), Tareas::new());
    assert_eq!(Tareas::cargar(Some(vec![])), Tareas::new());
}

#[test]
fn posiciones_hijas_en_orden_de_lista() {
    let mut t = lista(&["a", "b", "c"]);
    t.agregar_subtarea_con_id(1, String::from("h1"), "h1").unwrap();
    t.agregar_subtarea_con_id(2, String::from("h2"), "h2").unwrap();
    t.agregar_subtarea_con_id(1, String::from("h3"), "h3").unwrap();
    assert_eq!(posiciones_hijas(&t.tareas, None), vec![0, 1, 2]);
    assert_eq!(posiciones_hijas(&t.tareas, Some(&String::from("id1"))), vec![3, 5]);
    assert_eq!(posiciones_hijas(&t.tareas, Some(&String::from("h1"))), Vec::<usize>::new());
}

#[test]
fn ordenar_posiciones_por_estado_prioridad_y_posicion() {
    let mut t = lista(&["a", "b", "c", "d"]);
    t.completar(1).unwrap();
    t.priorizar(3, 1).unwrap();
    assert_eq!(ordenar_posiciones(&t.tareas, &vec![3, 2, 1, 0]), vec![1, 3, 2, 0]);
    assert_eq!(ordenar_posiciones(&t.tareas, &vec![0, 2]), vec![2, 0]);
    assert_eq!(ordenar_posiciones(&t.tareas, &vec![]), Vec::<usize>::new());
    assert!(precede_en(&t.tareas, 1, 3));
    assert!(!precede_en(&t.tareas, 3, 1));
    assert!(precede_en(&t.tareas, 2, 2));
    assert!(precede_en(&t.tareas, 2, 0));
    let _ = Tarea::new("x");
}
