use gguf_quant::workspace::{
    ensure_workspace_capacity, release_workspaces, workspace_ensure, workspace_fits,
    workspace_settle, Workspaces,
};

fn give(id: u64) -> impl FnOnce(usize) -> Result<(u64, usize), &'static str> {
    move |bytes| Ok((id, bytes))
}

fn refuse(_bytes: usize) -> Result<(u64, usize), &'static str> {
    Err("out of memory")
}

fn never(_bytes: usize) -> Result<(u64, usize), &'static str> {
    panic!("no allocation was called for")
}

#[test]
fn first_request_allocates_what_is_asked_for() {
    let mut ws = Workspaces::new();
    let slot = workspace_ensure(&mut ws, 0, 100, give(1)).unwrap();
    assert_eq!(slot.slice, (1, 100));
    assert_eq!(slot.cap, 100);
}

#[test]
fn smaller_requests_keep_the_buffer() {
    let mut ws = Workspaces::new();
    workspace_ensure(&mut ws, 0, 100, give(1)).unwrap();
    assert_eq!(workspace_ensure(&mut ws, 0, 40, never).unwrap().slice, (1, 100));
    assert_eq!(workspace_ensure(&mut ws, 0, 100, never).unwrap().cap, 100);
}

#[test]
fn larger_requests_grow_the_workspace() {
    let mut ws = Workspaces::new();
    workspace_ensure(&mut ws, 0, 100, give(1)).unwrap();
    let slot = workspace_ensure(&mut ws, 0, 101, give(2)).unwrap();
    assert_eq!(slot.slice, (2, 101));
    assert_eq!(slot.cap, 101);
}

#[test]
fn failed_allocations_change_nothing() {
    let mut ws = Workspaces::new();
    assert_eq!(workspace_ensure(&mut ws, 0, 5, refuse).err(), Some("out of memory"));
    assert!(ws.get(0).is_none());
    workspace_ensure(&mut ws, 0, 100, give(1)).unwrap();
    assert_eq!(workspace_ensure(&mut ws, 0, 200, refuse).err(), Some("out of memory"));
    assert_eq!(ws.get(0).unwrap().cap, 100);
}

#[test]
fn devices_have_workspaces_of_their_own() {
    let mut ws = Workspaces::new();
    workspace_ensure(&mut ws, 0, 100, give(1)).unwrap();
    workspace_ensure(&mut ws, 7, 50, give(2)).unwrap();
    assert_eq!(ws.get(0).unwrap().slice, (1, 100));
    assert_eq!(ws.get(7).unwrap().slice, (2, 50));
    assert!(ws.get(1).is_none());
}

#[test]
fn a_request_for_nothing_still_makes_a_workspace() {
    let mut ws = Workspaces::new();
    assert_eq!(workspace_ensure(&mut ws, 0, 0, give(3)).unwrap().slice, (3, 0));
    assert_eq!(workspace_ensure(&mut ws, 0, 0, never).unwrap().slice, (3, 0));
}

#[test]
fn pregrown_buffer_stays_through_later_requests() {
    let mut ws = Workspaces::new();
    assert_eq!(ensure_workspace_capacity(&mut ws, 0, 5184, give(9)).unwrap(), (&(9, 5184), 5184));
    for bytes in [576, 4608, 5184] {
        assert_eq!(workspace_ensure(&mut ws, 0, bytes, never).unwrap().slice, (9, 5184));
    }
    assert_eq!(ensure_workspace_capacity(&mut ws, 0, 10, never).unwrap(), (&(9, 5184), 5184));
    assert_eq!(ensure_workspace_capacity(&mut ws, 1, 10, refuse).err(), Some("out of memory"));
}

#[test]
fn released_workspaces_are_allocated_anew() {
    let mut ws = Workspaces::new();
    workspace_ensure(&mut ws, 0, 100, give(1)).unwrap();
    workspace_ensure(&mut ws, 1, 100, give(2)).unwrap();
    release_workspaces(&mut ws);
    assert!(ws.get(0).is_none() && ws.get(1).is_none());
    assert_eq!(workspace_ensure(&mut ws, 0, 10, give(3)).unwrap().slice, (3, 10));
}

#[test]
fn settling_takes_in_an_allocation() {
    let mut ws = Workspaces::new();
    assert!(!workspace_fits(&ws, 0, 8));
    assert_eq!(workspace_settle(&mut ws, 0, 8, Err::<u64, &str>("no")), Err("no"));
    assert!(!workspace_fits(&ws, 0, 8));
    assert_eq!(workspace_settle(&mut ws, 0, 8, Ok::<u64, &str>(4)), Ok(()));
    assert!(workspace_fits(&ws, 0, 8));
    assert!(!workspace_fits(&ws, 0, 9));
    assert!(!workspace_fits(&ws, 1, 0));
}
