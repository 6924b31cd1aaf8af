use psr::system::{share_of, SystemResources};

#[test]
fn share_in_hundredths_of_a_percent() {
    assert_eq!(share_of(0, 1), 0);
    assert_eq!(share_of(1, 2), 5_000);
    assert_eq!(share_of(1, 3), 3_333);
    assert_eq!(share_of(8, 8), 10_000);
    assert_eq!(share_of(4 * 1024 * 1024 * 1024, 16 * 1024 * 1024 * 1024), 2_500);
    assert_eq!(share_of(3, 1), 30_000);
    assert_eq!(share_of(3, 0), 30_000);
    assert_eq!(share_of(0, 0), 0);
}

#[test]
fn share_saturates() {
    assert_eq!(share_of(u64::MAX, 1), u64::MAX);
    assert_eq!(share_of(u64::MAX, u64::MAX), 10_000);
    assert_eq!(share_of(u64::MAX, 10_000), u64::MAX);
    assert_eq!(share_of(u64::MAX, 10_001), 18_444_899_583_751_176_497);
}

#[test]
fn new_resources_have_a_total_of_one() {
    let r = SystemResources::new();
    assert_eq!(r.cpu_usage(), 0);
    assert_eq!(r.used_memory(), 0);
    assert_eq!(r.total_memory(), 1);
    assert_eq!(r.memory_percentage(), 0);
    assert_eq!(r.cpu_history().len(), 60);
    assert_eq!(r.memory_history().len(), 60);
    assert!(r.cpu_history().samples().iter().all(|v| *v == 0));
    assert!(r.memory_history().samples().iter().all(|v| *v == 0));
}

#[test]
fn update_records_the_reading() {
    let mut r = SystemResources::new();
    r.update(1_250, 2_000, 8_000);
    assert_eq!(r.cpu_usage(), 1_250);
    assert_eq!(r.used_memory(), 2_000);
    assert_eq!(r.total_memory(), 8_000);
    assert_eq!(r.memory_percentage(), 2_500);
    assert_eq!(r.cpu_history().len(), 60);
    assert_eq!(r.cpu_history().samples()[59], 1_250);
    assert_eq!(r.cpu_history().samples()[58], 0);
    assert_eq!(r.memory_history().samples()[59], 2_500);
}

#[test]
fn total_memory_is_never_zero() {
    let mut r = SystemResources::new();
    r.update(0, 0, 0);
    assert_eq!(r.total_memory(), 1);
    assert_eq!(r.memory_percentage(), 0);
    r.update(0, 5, 0);
    assert_eq!(r.total_memory(), 1);
    assert_eq!(r.used_memory(), 5);
    assert_eq!(r.memory_percentage(), 50_000);
    assert_eq!(r.memory_history().samples()[59], 50_000);
}

#[test]
fn memory_share_of_a_process() {
    let mut r = SystemResources::new();
    r.update(0, 0, 1_000);
    assert_eq!(r.memory_share(10), 100);
    assert_eq!(r.memory_share(1_000), 10_000);
}

#[test]
fn system_history_is_the_last_sixty_readings() {
    let mut r = SystemResources::new();
    for i in 0..75u64 {
        r.update(i, i, 100);
    }
    let cpu: Vec<u64> = (15..75u64).collect();
    let memory: Vec<u64> = (15..75u64).map(|i| i * 100).collect();
    assert_eq!(r.cpu_history().samples(), &cpu);
    assert_eq!(r.memory_history().samples(), &memory);
}
