use deepagents::runtime::assembly::{sort_runtime_middlewares, RuntimeMiddlewareAssembler, RuntimeMiddlewareDescriptor, RuntimeMiddlewareSlot};

#[test]
fn middlewares_are_ordered_by_slot_then_label() {
    let mut a = RuntimeMiddlewareAssembler::new();
    a.push(RuntimeMiddlewareSlot::Hitl, "hitl", 9);
    a.push_user("zeta", 7);
    a.push(RuntimeMiddlewareSlot::TodoList, "todo", 0);
    a.push_user("alpha", 6);
    a.push(RuntimeMiddlewareSlot::PatchToolCalls, "patch", 5);
    a.push(RuntimeMiddlewareSlot::Memory, "memory", 1);
    assert_eq!(a.build().unwrap(), vec![0, 1, 5, 6, 7, 9]);
}

#[test]
fn duplicate_slot_is_refused() {
    let mut a = RuntimeMiddlewareAssembler::new();
    a.push(RuntimeMiddlewareSlot::Memory, "one", 1);
    a.push(RuntimeMiddlewareSlot::Skills, "skills", 2);
    a.push(RuntimeMiddlewareSlot::Memory, "two", 3);
    assert_eq!(a.build().unwrap_err(), "duplicate runtime middleware slot: Memory");
}

#[test]
fn user_slot_may_hold_several_with_equal_labels() {
    let items = vec![
        RuntimeMiddlewareDescriptor { slot: RuntimeMiddlewareSlot::User, label: "same", middleware: "first" },
        RuntimeMiddlewareDescriptor { slot: RuntimeMiddlewareSlot::Summarization, label: "s", middleware: "summary" },
        RuntimeMiddlewareDescriptor { slot: RuntimeMiddlewareSlot::User, label: "same", middleware: "second" },
    ];
    assert_eq!(sort_runtime_middlewares(items).unwrap(), vec!["summary", "first", "second"]);
}

#[test]
fn empty_assembly_builds_nothing() {
    let a: RuntimeMiddlewareAssembler<u8> = RuntimeMiddlewareAssembler::new();
    assert!(a.build().unwrap().is_empty());
}

#[test]
fn slot_names_and_ranks() {
    assert_eq!(RuntimeMiddlewareSlot::FilesystemRuntime.name(), "FilesystemRuntime");
    assert_eq!(RuntimeMiddlewareSlot::TodoList.rank(), 0);
    assert_eq!(RuntimeMiddlewareSlot::Hitl.rank(), 9);
    assert!(RuntimeMiddlewareSlot::User < RuntimeMiddlewareSlot::Hitl);
}
