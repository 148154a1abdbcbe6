//! A task list with subtasks: tasks are added, completed, tagged and given a
//! priority by their position in the list, and shown as an indented tree.

pub mod comando;
pub mod comparacion;
pub mod orden;
pub mod propiedades;
pub mod sesion;
pub mod tarea;
pub mod tareas;
pub mod texto;
