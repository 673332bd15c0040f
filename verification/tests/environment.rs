use sandbox_startup::allocator::allocate_on_demand;
use sandbox_startup::limits::ModuleLimits;
use sandbox_startup::module::Module;
use sandbox_startup::sandbox::{DirectoryGrant, EnvironmentError, Resolved, SandboxContext};

fn grant(host: &str, guest: &str) -> DirectoryGrant {
    DirectoryGrant { host: host.as_bytes().to_vec(), guest: guest.as_bytes().to_vec(), opened: true }
}

fn args() -> Vec<Vec<u8>> {
    vec![b"spelling-corrector.wasm".to_vec(), b"funciton".to_vec()]
}

fn resolve(ctx: &SandboxContext, path: &str) -> Option<(usize, String)> {
    ctx.resolve(&path.as_bytes().to_vec())
        .map(|r| (r.grant, String::from_utf8(r.relative).unwrap()))
}

#[test]
fn build_keeps_arguments_and_grants_in_order() {
    let grants = vec![grant("../spelling-corrector", "."), grant("/tmp", "/tmp")];
    let ctx = SandboxContext::build(args(), None, grants.clone()).unwrap();
    assert_eq!(ctx.arguments(), &args());
    assert_eq!(ctx.directory_grants(), &grants);
}

#[test]
fn argument_with_a_zero_byte_is_invalid() {
    let bad = vec![b"prog".to_vec(), b"ok".to_vec(), b"a\0b".to_vec(), b"\0".to_vec()];
    let result = SandboxContext::build(bad, None, vec![]);
    assert_eq!(result.unwrap_err(), EnvironmentError::InvalidArgument(2));
}

#[test]
fn unopened_directory_is_unavailable() {
    let mut missing = grant("/nowhere", "/data");
    missing.opened = false;
    let grants = vec![grant("/a", "/"), missing.clone(), missing];
    let result = SandboxContext::build(args(), None, grants);
    assert_eq!(result.unwrap_err(), EnvironmentError::DirectoryUnavailable(1));
}

#[test]
fn arguments_are_checked_before_grants() {
    let mut missing = grant("/nowhere", "/data");
    missing.opened = false;
    let result = SandboxContext::build(vec![b"\0".to_vec()], None, vec![missing]);
    assert_eq!(result.unwrap_err(), EnvironmentError::InvalidArgument(0));
}

#[test]
fn without_grants_nothing_can_be_opened() {
    let ctx = SandboxContext::build(args(), None, vec![]).unwrap();
    assert_eq!(resolve(&ctx, "/"), None);
    assert_eq!(resolve(&ctx, "words.txt"), None);
    assert_eq!(resolve(&ctx, "./words.txt"), None);
    assert_eq!(resolve(&ctx, "/etc/passwd"), None);
    assert_eq!(resolve(&ctx, ""), None);
    assert_eq!(resolve(&SandboxContext::empty(), "/a"), None);
}

#[test]
fn grant_does_not_reach_a_sibling_directory() {
    let ctx = SandboxContext::build(args(), None, vec![grant("/a", "/")]).unwrap();
    assert_eq!(resolve(&ctx, "/file.txt"), Some((0, "file.txt".to_string())));
    assert_eq!(resolve(&ctx, "/b/secret"), Some((0, "b/secret".to_string())));
    assert_eq!(resolve(&ctx, "/../b/secret"), None);
    assert_eq!(resolve(&ctx, "/x/../../b/secret"), None);
    assert_eq!(resolve(&ctx, "/.."), None);
    assert_eq!(resolve(&ctx, ".."), None);
    assert_eq!(resolve(&ctx, "b/secret"), None);
    assert_eq!(resolve(&ctx, "/..b/...c/d.."), Some((0, "..b/...c/d..".to_string())));
}

#[test]
fn guest_prefix_must_end_at_a_component() {
    let ctx =
        SandboxContext::build(args(), None, vec![grant("/srv/data", "/data"), grant("/srv", "/")])
            .unwrap();
    assert_eq!(resolve(&ctx, "/data/x"), Some((0, "/x".to_string())));
    assert_eq!(resolve(&ctx, "/data"), Some((0, "".to_string())));
    assert_eq!(resolve(&ctx, "/database/x"), Some((1, "database/x".to_string())));
    let only = SandboxContext::build(args(), None, vec![grant("/srv/data", "/data")]).unwrap();
    assert_eq!(resolve(&only, "/database/x"), None);
}

#[test]
fn first_covering_grant_wins() {
    let ctx = SandboxContext::build(args(), None, vec![grant("/one", "."), grant("/two", ".")])
        .unwrap();
    let found = ctx.resolve(&b"./words.txt".to_vec());
    assert_eq!(found, Some(Resolved { grant: 0, relative: b"/words.txt".to_vec() }));
}

#[test]
fn missing_input_reads_as_end_of_input() {
    let mut ctx = SandboxContext::build(args(), None, vec![]).unwrap();
    assert_eq!(ctx.read_input(16), Vec::<u8>::new());
    assert_eq!(ctx.read_input(0), Vec::<u8>::new());
}

#[test]
fn input_is_read_in_order_until_its_end() {
    let mut ctx = SandboxContext::build(args(), Some(b"console.log(1)".to_vec()), vec![]).unwrap();
    assert_eq!(ctx.read_input(7), b"console".to_vec());
    assert_eq!(ctx.read_input(0), Vec::<u8>::new());
    assert_eq!(ctx.read_input(100), b".log(1)".to_vec());
    assert_eq!(ctx.read_input(100), Vec::<u8>::new());
}

#[test]
fn instance_owns_its_context() {
    let limits = ModuleLimits { memory_pages: 1, table_elements: 0, types: 0 };
    let m = Module::new(vec!["_start".to_string()], 0, 0, limits).unwrap();
    let ctx = SandboxContext::build(args(), Some(b"abc".to_vec()), vec![grant("/a", "/")]).unwrap();
    let mut i = allocate_on_demand(&m, ctx).unwrap();
    assert_eq!(i.memory_bytes().len(), 0);
    assert_eq!(i.sandbox().arguments(), &args());
    assert_eq!(i.read_input(2), b"ab".to_vec());
    assert_eq!(i.read_input(2), b"c".to_vec());
    assert_eq!(i.sandbox().resolve(&b"/x".to_vec()).unwrap().grant, 0);
}
