use monstertruck_tracking::newton::{CalcOutput, NewtonLog};

#[test]
fn newton_log_records_only_when_active() {
    let mut active = NewtonLog::new(true, 4);
    active.push(1.5_f64);
    active.push(1.25);
    assert_eq!(active.log(), Some(&vec![1.5, 1.25]));
    assert!(!active.degenerate());
    active.set_degenerate(true);
    assert!(active.degenerate());
    assert_eq!(active.log().map(|log| log.len()), Some(2));

    let mut inactive = NewtonLog::new(false, 4);
    inactive.push(3_u8);
    assert_eq!(inactive.log(), None);
    assert!(!inactive.degenerate());

    let output = CalcOutput {
        value: 2.0_f64,
        derivation: 4.0_f64,
    };
    assert_eq!((output.value, output.derivation), (2.0, 4.0));
}
