use sandbox_startup::allocator::{allocate_on_demand, AllocationError, Pool};
use sandbox_startup::instance::{Effect, Instance, RunState};
use sandbox_startup::limits::ModuleLimits;
use sandbox_startup::module::{Module, SnapshotImage};
use sandbox_startup::outcome::Termination;
use sandbox_startup::sandbox::SandboxContext;
use sandbox_startup::snapshot::{
    begin_snapshot, capture, complete_snapshot, derive_variant, snapshot, InitializerFault,
    SnapshotError,
};

fn limits() -> ModuleLimits {
    ModuleLimits { memory_pages: 1, table_elements: 0, types: 0 }
}

fn module() -> Module {
    Module::new(vec!["init".to_string(), "_start".to_string()], 1, 1, limits()).unwrap()
}

fn run_initializer(i: &mut Instance) {
    for k in 0..16usize {
        let byte = (k * 3 + 1) as u8;
        i.store(k, byte).unwrap();
    }
    i.set_global(0, 42).unwrap();
}

fn run_entry(i: &mut Instance) -> u64 {
    let mut sum: u64 = i.global(0).unwrap() as u64;
    for k in 0..16usize {
        sum += i.load(k).unwrap() as u64;
    }
    sum
}

fn take_snapshot(m: &Module) -> SnapshotImage {
    let mut i = begin_snapshot(m, &"init".to_string()).unwrap();
    assert_eq!(i.run_state(), RunState::Running);
    assert_eq!(i.pool_slot(), None);
    run_initializer(&mut i);
    complete_snapshot(i, Termination::Returned).unwrap()
}

#[test]
fn snapshot_holds_what_the_initializer_left() {
    let image = take_snapshot(&module());
    assert_eq!(image.memory_bytes().len(), 65536);
    assert_eq!(&image.memory_bytes()[0..4], &[1u8, 4, 7, 10]);
    assert_eq!(image.memory_bytes()[16], 0);
    assert_eq!(image.global_values(), &vec![42i64]);
}

#[test]
fn two_snapshots_are_identical() {
    let m = module();
    let first = take_snapshot(&m);
    let second = take_snapshot(&m);
    assert_eq!(first, second);
}

#[test]
fn snapshotted_variant_runs_as_initialized_plain_module() {
    let m = module();
    let derived = m.with_snapshot(take_snapshot(&m)).unwrap();
    assert!(derived.has_snapshot());
    assert!(!m.has_snapshot());
    assert_eq!(derived.declared_limits(), m.declared_limits());
    assert_eq!(derived.export_names(), m.export_names());

    let mut control = allocate_on_demand(&m, SandboxContext::empty()).unwrap();
    assert!(control.begin(&"_start".to_string()));
    run_initializer(&mut control);
    let expected = run_entry(&mut control);

    let mut resumed = allocate_on_demand(&derived, SandboxContext::empty()).unwrap();
    assert_eq!(resumed.run_state(), RunState::NotStarted);
    assert!(resumed.begin(&"_start".to_string()));
    assert_eq!(run_entry(&mut resumed), expected);
    assert_eq!(expected, 42 + (0..16u64).map(|k| k * 3 + 1).sum::<u64>());
    assert_eq!(resumed.memory_bytes(), control.memory_bytes());
    assert_eq!(resumed.global_values(), control.global_values());
}

#[test]
fn pool_resets_to_the_snapshot() {
    let m = module();
    let image = take_snapshot(&m);
    let derived = m.with_snapshot(image.clone()).unwrap();
    let mut pool = Pool::new(limits(), 1).unwrap();
    let mut first = pool.allocate(&derived, SandboxContext::empty()).unwrap();
    assert_eq!(first.memory_bytes(), image.memory_bytes());
    assert!(first.begin(&"_start".to_string()));
    first.store(0, 99).unwrap();
    first.set_global(0, 7).unwrap();
    assert!(pool.release(first));
    let second = pool.allocate(&derived, SandboxContext::empty()).unwrap();
    assert_eq!(second.memory_bytes(), image.memory_bytes());
    assert_eq!(second.global_values(), image.global_values());
}

#[test]
fn missing_initializer_fails() {
    let result = begin_snapshot(&module(), &"wizer.initialize".to_string());
    assert_eq!(
        result.unwrap_err(),
        SnapshotError::InitializerFailed(InitializerFault::MissingExport)
    );
}

#[test]
fn snapshot_allocation_failure_is_reported() {
    let big = ModuleLimits { memory_pages: u32::MAX, table_elements: 0, types: 0 };
    let m = Module::new(vec!["init".to_string()], u32::MAX, 0, big).unwrap();
    assert_eq!(
        begin_snapshot(&m, &"init".to_string()).unwrap_err(),
        SnapshotError::InitializerFailed(InitializerFault::Allocation(
            AllocationError::BackingAllocationFailed
        ))
    );
}

#[test]
fn trapping_initializer_fails_with_its_reason() {
    let i = begin_snapshot(&module(), &"init".to_string()).unwrap();
    let trap = Termination::Trap { exit_status: None, reason: "unreachable".to_string() };
    assert_eq!(
        complete_snapshot(i, trap).unwrap_err(),
        SnapshotError::InitializerFailed(InitializerFault::Trapped("unreachable".to_string()))
    );
}

#[test]
fn exiting_initializer_fails_with_its_code() {
    let i = begin_snapshot(&module(), &"init".to_string()).unwrap();
    let exit = Termination::Trap { exit_status: Some(3), reason: "exit".to_string() };
    assert_eq!(
        complete_snapshot(i, exit).unwrap_err(),
        SnapshotError::InitializerFailed(InitializerFault::ExitedWithCode(3))
    );
}

#[test]
fn snapshot_of_an_instance_that_is_not_running_fails() {
    let i = allocate_on_demand(&module(), SandboxContext::empty()).unwrap();
    assert_eq!(
        complete_snapshot(i, Termination::Returned).unwrap_err(),
        SnapshotError::InitializerFailed(InitializerFault::NotRunning)
    );
}

#[test]
fn capture_copies_memory_and_globals() {
    let mut i = allocate_on_demand(&module(), SandboxContext::empty()).unwrap();
    assert!(i.begin(&"init".to_string()));
    i.store(5, 5).unwrap();
    let image = capture(i);
    assert_eq!(image.memory_bytes()[5], 5);
    assert_eq!(image.memory_bytes()[4], 0);
    assert_eq!(image.global_values(), &vec![0i64]);
}

#[test]
fn image_that_does_not_fit_is_refused() {
    let m = module();
    let too_long = SnapshotImage::new(vec![0u8; 65537], vec![0]);
    assert!(m.with_snapshot(too_long).is_none());
    let wrong_globals = SnapshotImage::new(vec![0u8; 16], vec![0, 0]);
    assert!(m.with_snapshot(wrong_globals).is_none());
    let short = SnapshotImage::new(vec![1u8; 16], vec![9]);
    let derived = m.with_snapshot(short).unwrap();
    let i = allocate_on_demand(&derived, SandboxContext::empty()).unwrap();
    assert_eq!(i.memory_bytes(), &vec![1u8; 16]);
    assert_eq!(i.global_values(), &vec![9i64]);
}

fn record() -> Vec<Effect> {
    vec![
        Effect::Store { address: 0, value: 1 },
        Effect::Grow { pages: 1 },
        Effect::Store { address: 65536, value: 2 },
        Effect::SetGlobal { index: 0, value: 42 },
        Effect::Store { address: 0, value: 3 },
    ]
}

fn growable() -> Module {
    let limits = ModuleLimits { memory_pages: 2, table_elements: 0, types: 0 };
    Module::new(vec!["init".to_string(), "_start".to_string()], 1, 1, limits).unwrap()
}

#[test]
fn recorded_snapshot_is_the_state_after_the_steps() {
    let image = snapshot(&growable(), &"init".to_string(), &record(), Termination::Returned).unwrap();
    assert_eq!(image.memory_bytes().len(), 2 * 65536);
    assert_eq!(image.memory_bytes()[0], 3);
    assert_eq!(image.memory_bytes()[1], 0);
    assert_eq!(image.memory_bytes()[65536], 2);
    assert_eq!(image.global_values(), &vec![42i64]);
}

#[test]
fn recorded_snapshots_of_one_record_are_identical() {
    let m = growable();
    let first = snapshot(&m, &"init".to_string(), &record(), Termination::Returned).unwrap();
    let second = snapshot(&m, &"init".to_string(), &record(), Termination::Returned).unwrap();
    assert_eq!(first, second);
    let other = snapshot(&m, &"init".to_string(), &vec![], Termination::Returned).unwrap();
    assert_ne!(first, other);
    assert_eq!(other.memory_bytes(), &vec![0u8; 65536]);
}

#[test]
fn recorded_snapshot_fails_on_a_refused_step() {
    let m = growable();
    let init = "init".to_string();
    let out_of_bounds = vec![Effect::Store { address: 65536, value: 1 }];
    assert_eq!(
        snapshot(&m, &init, &out_of_bounds, Termination::Returned).unwrap_err(),
        SnapshotError::InitializerFailed(InitializerFault::AccessRefused)
    );
    let over_limit = vec![Effect::Grow { pages: 2 }];
    assert_eq!(
        snapshot(&m, &init, &over_limit, Termination::Returned).unwrap_err(),
        SnapshotError::InitializerFailed(InitializerFault::AccessRefused)
    );
    let no_global = vec![Effect::SetGlobal { index: 1, value: 0 }];
    assert_eq!(
        snapshot(&m, &init, &no_global, Termination::Returned).unwrap_err(),
        SnapshotError::InitializerFailed(InitializerFault::AccessRefused)
    );
}

#[test]
fn recorded_snapshot_reports_the_other_faults() {
    let m = growable();
    assert_eq!(
        snapshot(&m, &"absent".to_string(), &record(), Termination::Returned).unwrap_err(),
        SnapshotError::InitializerFailed(InitializerFault::MissingExport)
    );
    let exit = Termination::Trap { exit_status: Some(0), reason: "exit".to_string() };
    assert_eq!(
        snapshot(&m, &"init".to_string(), &record(), exit).unwrap_err(),
        SnapshotError::InitializerFailed(InitializerFault::ExitedWithCode(0))
    );
    let trap = Termination::Trap { exit_status: None, reason: "unreachable".to_string() };
    assert_eq!(
        snapshot(&m, &"init".to_string(), &record(), trap).unwrap_err(),
        SnapshotError::InitializerFailed(InitializerFault::Trapped("unreachable".to_string()))
    );
}

#[test]
fn replay_stops_at_the_first_refused_step() {
    let mut i = allocate_on_demand(&growable(), SandboxContext::empty()).unwrap();
    assert!(!i.replay(&record()));
    assert_eq!(i.memory_bytes()[0], 0);
    assert!(i.begin(&"_start".to_string()));
    let steps = vec![
        Effect::Store { address: 7, value: 7 },
        Effect::Store { address: 65536, value: 1 },
        Effect::Store { address: 8, value: 8 },
    ];
    assert!(!i.replay(&steps));
    assert_eq!(i.memory_bytes()[7], 7);
    assert_eq!(i.memory_bytes()[8], 0);
    assert!(i.replay(&record()));
    assert_eq!(i.memory_bytes().len(), 2 * 65536);
    assert_eq!(i.memory_bytes()[0], 3);
    assert!(i.replay(&vec![]));
}

#[test]
fn variant_is_derived_from_the_initialized_instance() {
    let m = growable();
    let mut i = begin_snapshot(&m, &"init".to_string()).unwrap();
    assert!(i.replay(&record()));
    let variant = derive_variant(&m, i, Termination::Returned).unwrap();
    assert!(variant.has_snapshot());
    assert_eq!(variant.declared_limits(), m.declared_limits());
    assert_eq!(variant.export_names(), m.export_names());
    let resumed = allocate_on_demand(&variant, SandboxContext::empty()).unwrap();
    assert_eq!(resumed.memory_bytes().len(), 2 * 65536);
    assert_eq!(resumed.memory_bytes()[65536], 2);
    assert_eq!(resumed.global_values(), &vec![42i64]);
}

#[test]
fn variant_is_refused_for_a_failed_or_foreign_instance() {
    let m = growable();
    let i = begin_snapshot(&m, &"init".to_string()).unwrap();
    let exit = Termination::Trap { exit_status: Some(2), reason: "exit".to_string() };
    assert_eq!(
        derive_variant(&m, i, exit).unwrap_err(),
        SnapshotError::InitializerFailed(InitializerFault::ExitedWithCode(2))
    );
    let idle = allocate_on_demand(&m, SandboxContext::empty()).unwrap();
    assert_eq!(
        derive_variant(&m, idle, Termination::Returned).unwrap_err(),
        SnapshotError::InitializerFailed(InitializerFault::NotRunning)
    );
    let mut grown = begin_snapshot(&m, &"init".to_string()).unwrap();
    assert_eq!(grown.grow(1), Ok(65536));
    assert_eq!(
        derive_variant(&module(), grown, Termination::Returned).unwrap_err(),
        SnapshotError::InitializerFailed(InitializerFault::ImageRejected)
    );
}
