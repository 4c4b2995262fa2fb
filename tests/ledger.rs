use cell_sim::{Chemicals, ComponentKind, ComponentProps, Inner, Membrane, QUANTUM, STEP_SIZE};

#[test]
fn request_is_throughput_times_step() {
    let p = ComponentProps::new(2 * QUANTUM, QUANTUM);
    let a = p.get_input_output_amt(5 * QUANTUM, STEP_SIZE);
    assert_eq!(a.input, 10_000);
    // efficiency 1 / (1 + 1/2) = 2/3, rounded down
    assert_eq!(a.output, 6_666);
}

#[test]
fn input_is_clamped_to_what_is_available() {
    let p = ComponentProps::new(2 * QUANTUM, QUANTUM);
    let a = p.get_input_output_amt(3_000, STEP_SIZE);
    assert_eq!(a.input, 3_000);
    assert_eq!(a.output, 2_000);
    let none = p.get_input_output_amt(0, STEP_SIZE);
    assert_eq!(none.input, 0);
    assert_eq!(none.output, 0);
}

#[test]
fn zero_capacity_produces_nothing() {
    let p = ComponentProps::new(0, QUANTUM);
    let a = p.get_input_output_amt(QUANTUM, STEP_SIZE);
    assert_eq!(a.input, 10_000);
    assert_eq!(a.output, 0);
    let idle = ComponentProps::new(0, 0);
    let b = idle.get_input_output_amt(QUANTUM, STEP_SIZE);
    assert_eq!((b.input, b.output), (0, 0));
}

#[test]
fn largest_values_do_not_overflow() {
    let p = ComponentProps::new(u64::MAX, u64::MAX);
    let a = p.get_input_output_amt(u64::MAX, u64::MAX);
    assert_eq!(a.input, u64::MAX);
    assert_eq!(a.output, u64::MAX / 2);
}

#[test]
fn output_never_exceeds_input() {
    for proteins in [0, 1, 7, QUANTUM, 10 * QUANTUM] {
        for speed in [0, 1, 999, QUANTUM] {
            for available in [0, 5, 10_000, u64::MAX] {
                let a = ComponentProps::new(proteins, speed).get_input_output_amt(available, 10);
                assert!(a.input <= available);
                assert!(a.output <= a.input);
                if proteins + speed > 0 {
                    let d = proteins as u128 + speed as u128;
                    let x = a.input as u128 * proteins as u128;
                    assert!(a.output as u128 * d <= x && x < (a.output as u128 + 1) * d);
                }
            }
        }
    }
}

#[test]
fn component_defaults() {
    let p = ComponentProps::default();
    assert_eq!(p.proteins, 2 * QUANTUM);
    assert_eq!(p.speed, QUANTUM);
    assert_eq!(p.size(), 2 * QUANTUM as u128);
}

#[test]
fn ledger_size_weighs_each_kind() {
    let inner = Inner {
        chemicals: Chemicals { atp: 3, glucose: 5 },
        nucleotides: 7,
        proteins: 11,
    };
    assert_eq!(inner.size(), 3 + 50 + 7 + 11);
    assert_eq!(Membrane {}.size(), 0);
}

#[test]
fn components_run_in_declared_order() {
    assert_eq!(
        cell_sim::get_components(),
        vec![
            ComponentKind::Flagellum,
            ComponentKind::Chlorophyll,
            ComponentKind::Glycolysis,
            ComponentKind::NucleotideDeNovo,
            ComponentKind::ProteinDeNovo,
        ]
    );
}
