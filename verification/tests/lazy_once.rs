use std::cell::Cell;
use whorl::lazy::{Lazy, LazyError};

#[test]
fn factory_runs_exactly_once_and_value_is_shared() {
    // Repeated demands on the cell run the factory once; every caller
    // sees the one stored value.
    let runs = Cell::new(0u32);
    let mut cell: Lazy<u64> = Lazy::new();
    for _ in 0..5 {
        let v = cell
            .get_or_init(|| {
                runs.set(runs.get() + 1);
                42u64
            })
            .copied();
        assert_eq!(v, Ok(42));
    }
    assert_eq!(runs.get(), 1);
}

#[test]
fn later_factories_are_ignored() {
    let mut cell: Lazy<&'static str> = Lazy::new();
    let first = cell.get_or_init(|| "first").copied();
    assert_eq!(first, Ok("first"));
    let second = cell.get_or_init(|| "second").copied();
    assert_eq!(second, Ok("first"));
}

#[test]
fn fresh_cell_reports_uninitialized() {
    let cell: Lazy<u32> = Lazy::new();
    assert!(!cell.is_initialized());
    assert!(cell.get().is_none());
}

#[test]
fn begin_init_is_won_exactly_once() {
    // Of any number of callers racing to initialize, exactly one wins the
    // right to run the factory.
    let mut cell: Lazy<u32> = Lazy::new();
    assert!(cell.try_begin_init());
    assert!(!cell.try_begin_init());
    cell.complete_init(7);
    assert!(!cell.try_begin_init());
    assert_eq!(cell.get().copied(), Some(7));
}

#[test]
fn complete_init_publishes_the_value() {
    let mut cell: Lazy<String> = Lazy::new();
    assert!(cell.try_begin_init());
    cell.complete_init(String::from("ready"));
    assert!(cell.is_initialized());
    assert_eq!(cell.get().cloned(), Some(String::from("ready")));
    // A later demand hands the stored value back without a factory run.
    let v = cell.get_or_init(|| String::from("other")).cloned();
    assert_eq!(v, Ok(String::from("ready")));
}

#[test]
fn poisoned_cell_fails_every_caller() {
    // A factory that fails before storing a value poisons the cell; all
    // current and future demands report the poisoning.
    let mut cell: Lazy<u32> = Lazy::new();
    assert!(cell.try_begin_init());
    cell.poison();
    assert!(!cell.is_initialized());
    assert!(cell.get().is_none());
    let r = cell.get_or_init(|| 5).copied();
    assert_eq!(r, Err(LazyError::InitializationPoisoned));
    let r2 = cell.get_or_init(|| 6).copied();
    assert_eq!(r2, Err(LazyError::InitializationPoisoned));
}
