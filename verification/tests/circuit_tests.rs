use qcdesigner::circuit::{Circuit, GridCell};
use qcdesigner::coordinate::Coordinate;
use qcdesigner::gate::Gate;
use qcdesigner::gate_id::{GateId, GateIdCounter};
use qcdesigner::gate_type::GateType;

fn at(row: usize, column: usize) -> Coordinate {
    Coordinate { row, column }
}

#[test]
fn new_circuit_is_empty() {
    let c = Circuit::new(3, 7);
    assert_eq!(c.rows, 3);
    assert_eq!(c.cols, 7);
    assert!(c.selected_gate.is_none());
    assert!(c.last_clicked.is_none());
    assert!(c.get_gate_at_coordinate(&at(0, 0)).is_none());
}

#[test]
fn default_circuit_is_ten_by_ten() {
    let c = Circuit::default();
    assert_eq!(c.rows, 10);
    assert_eq!(c.cols, 10);
}

#[test]
fn add_gate_places_a_gate_and_records_the_click() {
    let mut c = Circuit::new(3, 10);
    c.add_gate(at(1, 4));
    let id = c.get_gate_at_coordinate(&at(1, 4)).expect("gate placed");
    assert_eq!(id.value(), 0);
    assert!(c.last_clicked == Some(at(1, 4)));
    let g = c.get_gate(id).expect("gate found by id");
    assert!(g.coordinate() == at(1, 4));
    assert!(g.gate_type == GateType::SingleQubit);
    assert_eq!(g.label.as_deref(), Some("U"));
    assert!(!g.render_latex());
}

#[test]
fn add_gate_on_occupied_cell_changes_nothing() {
    let mut c = Circuit::new(3, 10);
    c.add_gate(at(2, 2));
    c.add_gate(at(0, 0));
    let first = c.get_gate_at_coordinate(&at(2, 2)).unwrap();
    c.add_gate(at(2, 2));
    assert!(c.get_gate_at_coordinate(&at(2, 2)) == Some(first));
    assert!(c.last_clicked == Some(at(0, 0)));
    // the counter did not move: the next gate gets identity 2
    c.add_gate(at(1, 1));
    assert_eq!(c.get_gate_at_coordinate(&at(1, 1)).unwrap().value(), 2);
}

#[test]
fn gate_ids_are_distinct() {
    let mut c = Circuit::new(3, 10);
    c.add_gate(at(0, 0));
    c.add_gate(at(0, 1));
    c.add_gate(at(1, 0));
    let a = c.get_gate_at_coordinate(&at(0, 0)).unwrap();
    let b = c.get_gate_at_coordinate(&at(0, 1)).unwrap();
    let d = c.get_gate_at_coordinate(&at(1, 0)).unwrap();
    assert!(a != b && b != d && a != d);
}

#[test]
fn remove_gate_takes_the_gate_off_and_forgets_the_click() {
    let mut c = Circuit::new(3, 10);
    c.add_gate(at(0, 3));
    c.add_gate(at(2, 5));
    c.remove_gate(&at(0, 3));
    assert!(c.get_gate_at_coordinate(&at(0, 3)).is_none());
    assert!(c.get_gate_at_coordinate(&at(2, 5)).is_some());
    assert!(c.last_clicked.is_none());
}

#[test]
fn remove_gate_on_empty_cell_only_forgets_the_click() {
    let mut c = Circuit::new(3, 10);
    c.add_gate(at(1, 1));
    c.remove_gate(&at(2, 2));
    assert!(c.get_gate_at_coordinate(&at(1, 1)).is_some());
    assert!(c.last_clicked.is_none());
}

#[test]
fn add_then_remove_restores_the_grid() {
    let mut c = Circuit::new(3, 4);
    c.add_gate(at(0, 0));
    let before = c.grid();
    c.add_gate(at(1, 2));
    c.remove_gate(&at(1, 2));
    assert!(c.grid() == before);
}

#[test]
fn select_and_deselect() {
    let mut c = Circuit::new(3, 10);
    c.add_gate(at(0, 0));
    let id = c.get_gate_at_coordinate(&at(0, 0)).unwrap();
    let gate = c.get_gate(id).unwrap().clone();
    assert!(c.select_gate(gate));
    assert!(c.is_selected(id));
    assert!(c.selected_gate().unwrap().id() == id);
    c.deselect_gate();
    assert!(!c.is_selected(id));
    assert!(c.selected_gate().is_none());
}

#[test]
fn selecting_an_unknown_gate_reports_it_but_still_selects_its_id() {
    let mut c = Circuit::new(3, 10);
    c.add_gate(at(0, 0));
    let mut other_ids = GateIdCounter::new();
    let _ = GateId::next(&mut other_ids);
    let stranger = Gate::new(GateType::Measurement, at(2, 2), &mut other_ids);
    let stranger_id = stranger.id();
    assert!(!c.select_gate(stranger));
    assert!(c.is_selected(stranger_id));
    assert!(c.selected_gate().is_none());
}

#[test]
fn a_gate_with_a_changed_label_is_not_found_by_select() {
    let mut c = Circuit::new(3, 10);
    c.add_gate(at(0, 0));
    let id = c.get_gate_at_coordinate(&at(0, 0)).unwrap();
    let mut gate = c.get_gate(id).unwrap().clone();
    gate.set_label(String::from("H"));
    assert!(!c.select_gate(gate));
    assert!(c.is_selected(id));
}

#[test]
fn selected_gate_mut_edits_in_place() {
    let mut c = Circuit::new(3, 10);
    c.add_gate(at(1, 1));
    let id = c.get_gate_at_coordinate(&at(1, 1)).unwrap();
    assert!(c.selected_gate_mut().is_none());
    let gate = c.get_gate(id).unwrap().clone();
    c.select_gate(gate);
    c.selected_gate_mut().unwrap().label = Some(String::from("X"));
    assert_eq!(c.get_gate(id).unwrap().label.as_deref(), Some("X"));
}

#[test]
fn row_count_steps_between_one_and_ten() {
    let mut c = Circuit::new(9, 10);
    c.increase_rows();
    assert_eq!(c.rows, 10);
    c.increase_rows();
    assert_eq!(c.rows, 10);
    c.set_rows(2);
    c.decrease_rows();
    assert_eq!(c.rows, 1);
    c.decrease_rows();
    assert_eq!(c.rows, 1);
    c.increase_rows();
    c.decrease_rows();
    assert_eq!(c.rows, 1);
}

#[test]
fn set_rows_casts_like_as() {
    let mut c = Circuit::new(3, 10);
    c.set_rows(7);
    assert_eq!(c.rows, 7);
    c.set_rows(-1);
    assert_eq!(c.rows, usize::MAX);
}

#[test]
fn grid_shows_gates_selection_and_empty_cells() {
    let mut c = Circuit::new(2, 3);
    c.add_gate(at(1, 2));
    c.add_gate(at(0, 0));
    let selected = c.get_gate_at_coordinate(&at(0, 0)).unwrap();
    let other = c.get_gate_at_coordinate(&at(1, 2)).unwrap();
    let g = c.get_gate(selected).unwrap().clone();
    c.select_gate(g);
    let cells = c.grid();
    assert_eq!(cells.len(), 3);
    for column in &cells {
        assert_eq!(column.len(), 2);
    }
    assert!(cells[0][0] == GridCell::Gate { id: selected, selected: true });
    assert!(cells[2][1] == GridCell::Gate { id: other, selected: false });
    assert!(cells[1][0] == GridCell::Empty { coordinate: at(0, 1) });
    assert!(cells[0][1] == GridCell::Empty { coordinate: at(1, 0) });
}
