use trin_supervisor::sampler::{aggregate_cpu, ProcessSample};

fn row(pid: u32, parent: Option<u32>, cpu: u32) -> ProcessSample {
    ProcessSample { pid, parent, cpu }
}

#[test]
fn root_and_two_children_sum() {
    let table = vec![row(10, Some(1), 1000), row(11, Some(10), 500), row(12, Some(10), 500)];
    assert_eq!(aggregate_cpu(&table, 10), Some(2000));
}

#[test]
fn grandchildren_and_strangers_are_not_counted() {
    let table = vec![
        row(20, Some(10), 300),
        row(10, None, 1000),
        row(11, Some(10), 500),
        row(30, Some(11), 900),
        row(40, Some(1), 800),
    ];
    assert_eq!(aggregate_cpu(&table, 10), Some(1800));
}

#[test]
fn absent_root_is_not_a_zero_reading() {
    let table = vec![row(11, Some(10), 500), row(12, Some(10), 500)];
    assert_eq!(aggregate_cpu(&table, 10), None);
    assert_eq!(aggregate_cpu(&Vec::new(), 10), None);
}

#[test]
fn idle_root_reads_zero() {
    let table = vec![row(10, None, 0)];
    assert_eq!(aggregate_cpu(&table, 10), Some(0));
}
