use qcdesigner::coordinate::Coordinate;
use qcdesigner::gate::Gate;
use qcdesigner::gate_id::{GateId, GateIdCounter};
use qcdesigner::gate_type::GateType;

#[test]
fn ids_count_up_from_zero() {
    let mut ids = GateIdCounter::new();
    assert_eq!(ids.peek(), 0);
    let a = GateId::next(&mut ids);
    let b = GateId::next(&mut ids);
    assert_eq!(a.value(), 0);
    assert_eq!(b.value(), 1);
    assert_eq!(ids.peek(), 2);
    assert_ne!(a, b);
}

#[test]
fn new_gate_sits_on_its_coordinate() {
    let mut ids = GateIdCounter::new();
    let g = Gate::new(GateType::CNOT, Coordinate { row: 3, column: 4 }, &mut ids);
    assert!(g.coordinate() == Coordinate { row: 3, column: 4 });
    assert!(g.gate_type == GateType::CNOT);
    assert_eq!(g.label.as_deref(), Some("U"));
    assert!(!g.render_latex());
    assert_eq!(g.id().value(), 0);
    assert_eq!(ids.peek(), 1);
}

#[test]
fn label_and_latex_flag_can_be_changed() {
    let mut ids = GateIdCounter::new();
    let mut g = Gate::new(GateType::SingleQubit, Coordinate { row: 0, column: 0 }, &mut ids);
    g.set_label(String::from("\\frac{1}{2}"));
    assert_eq!(g.label.as_deref(), Some("\\frac{1}{2}"));
    g.set_render_latex(true);
    assert!(g.render_latex());
    g.set_render_latex(false);
    assert!(!g.render_latex());
}

#[test]
fn clones_are_the_same_gate() {
    let mut ids = GateIdCounter::new();
    let g = Gate::new(GateType::Toffoli, Coordinate { row: 1, column: 2 }, &mut ids);
    let h = g.clone();
    assert!(g.same_as(&h));
    let k = Gate::new(GateType::Toffoli, Coordinate { row: 1, column: 2 }, &mut ids);
    assert!(!g.same_as(&k));
    let mut relabelled = g.clone();
    relabelled.label = None;
    assert!(!g.same_as(&relabelled));
}

#[test]
fn coordinate_debug_text() {
    assert_eq!(Coordinate { row: 2, column: 7 }.debug_string(), "Coord(2, 7)");
    assert_eq!(Coordinate { row: 0, column: 1234 }.debug_string(), "Coord(0, 1234)");
    assert_eq!(
        Coordinate { row: usize::MAX, column: 10 }.debug_string(),
        format!("Coord({}, 10)", usize::MAX)
    );
}

#[test]
fn coordinate_survives_setters_and_field_writes() {
    let mut ids = GateIdCounter::new();
    let mut g = Gate::new(GateType::Toffoli, Coordinate { row: 7, column: 2 }, &mut ids);
    g.set_label(String::from("x"));
    g.set_render_latex(true);
    g.label = None;
    g.gate_type = GateType::Reset;
    g.set_label(String::from("y"));
    assert!(g.coordinate() == Coordinate { row: 7, column: 2 });
}
