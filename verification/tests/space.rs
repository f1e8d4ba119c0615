use coherency::path::{FullPath, Path};
use coherency::space::Space;

fn full(segments: &[&str]) -> FullPath {
    FullPath::new(segments.iter().map(|s| s.to_string()).collect())
}

fn partial(segments: &[&str]) -> Path {
    Path::new(segments.iter().map(|s| s.to_string()).collect())
}

#[test]
fn push_returns_the_stored_value() {
    let mut space: Space<u32> = Space::new();
    let stored = *space.push(full(&["a", "b"]), 7);
    assert_eq!(stored, 7);
}

#[test]
fn find_after_push_gives_the_value() {
    let mut space: Space<u32> = Space::new();
    space.push(full(&["std", "io", "read"]), 1);
    space.push(full(&["std", "io", "write"]), 2);
    assert_eq!(space.find(&full(&["std", "io", "read"])), Some(&1));
    assert_eq!(space.find(&full(&["std", "io", "write"])), Some(&2));
}

#[test]
fn find_of_an_unknown_path_gives_nothing() {
    let mut space: Space<u32> = Space::new();
    space.push(full(&["a", "b"]), 1);
    assert_eq!(space.find(&full(&["b"])), None);
    assert_eq!(space.find(&full(&["a"])), None);
    assert_eq!(space.find(&full(&["a", "b", "c"])), None);
}

#[test]
fn push_overwrites_without_error() {
    let mut space: Space<u32> = Space::new();
    space.push(full(&["x"]), 1);
    let stored = *space.push(full(&["x"]), 2);
    assert_eq!(stored, 2);
    assert_eq!(space.find(&full(&["x"])), Some(&2));
}

#[test]
fn overwriting_keeps_the_other_entries() {
    let mut space: Space<u32> = Space::new();
    space.push(full(&["x"]), 1);
    space.push(full(&["y"]), 5);
    space.push(full(&["x"]), 2);
    assert_eq!(space.find(&full(&["y"])), Some(&5));
    assert_eq!(space.find(&full(&["x"])), Some(&2));
}

#[test]
fn resolve_of_a_unique_suffix_gives_the_full_path() {
    let mut space: Space<u32> = Space::new();
    space.push(full(&["std", "io", "read"]), 1);
    space.push(full(&["std", "fs", "open"]), 2);
    let r = space.resolve(&partial(&["read"]));
    assert!(r.same(&full(&["std", "io", "read"])));
    let r = space.resolve(&partial(&["fs", "open"]));
    assert!(r.same(&full(&["std", "fs", "open"])));
}

#[test]
fn resolve_without_a_match_promotes_the_path() {
    let mut space: Space<u32> = Space::new();
    space.push(full(&["std", "io", "read"]), 1);
    let r = space.resolve(&partial(&["io", "write"]));
    assert!(r.same(&full(&["io", "write"])));
    let r = space.resolve(&partial(&["std", "io"]));
    assert!(r.same(&full(&["std", "io"])));
}

#[test]
fn resolve_in_an_empty_space_promotes_the_path() {
    let space: Space<u32> = Space::new();
    let r = space.resolve(&partial(&["a"]));
    assert!(r.same(&full(&["a"])));
}

#[test]
fn resolve_needs_whole_segments() {
    let mut space: Space<u32> = Space::new();
    space.push(full(&["std", "thread"]), 1);
    let r = space.resolve(&partial(&["read"]));
    assert!(r.same(&full(&["read"])));
}

#[test]
fn resolve_of_a_shared_suffix_gives_the_one_stored_first() {
    let mut space: Space<u32> = Space::new();
    space.push(full(&["a", "x"]), 1);
    space.push(full(&["b", "x"]), 2);
    let r = space.resolve(&partial(&["x"]));
    assert!(r.same(&full(&["a", "x"])));
}

#[test]
fn lookup_goes_through_resolve() {
    let mut space: Space<u32> = Space::new();
    space.push(full(&["m", "f"]), 3);
    assert_eq!(space.lookup(&partial(&["f"])), Some(&3));
    assert_eq!(space.lookup(&partial(&["g"])), None);
}

#[test]
fn default_space_is_empty() {
    let space: Space<u32> = Space::default();
    assert_eq!(space.find(&full(&["a"])), None);
}

#[test]
fn ends_with_is_a_contiguous_suffix() {
    let p = full(&["a", "b", "c"]);
    assert!(p.ends_with(&partial(&["c"])));
    assert!(p.ends_with(&partial(&["b", "c"])));
    assert!(p.ends_with(&partial(&["a", "b", "c"])));
    assert!(p.ends_with(&partial(&[])));
    assert!(!p.ends_with(&partial(&["a", "c"])));
    assert!(!p.ends_with(&partial(&["a", "b"])));
    assert!(!p.ends_with(&partial(&["z", "a", "b", "c"])));
}

#[test]
fn same_compares_segments_in_order() {
    assert!(full(&["a", "b"]).same(&full(&["a", "b"])));
    assert!(!full(&["a", "b"]).same(&full(&["b", "a"])));
    assert!(!full(&["a", "b"]).same(&full(&["a"])));
    assert!(Path::single("x").into_full().same(&FullPath::single("x")));
}

#[test]
fn push_ty_stores_a_type_under_its_name() {
    let mut space: Space<coherency::ty::Ty> = Space::new();
    let stored = *space.push_ty(coherency::ty::Ty::Float);
    assert_eq!(stored, coherency::ty::Ty::Float);
    assert_eq!(space.find(&full(&["Float"])), Some(&coherency::ty::Ty::Float));
    assert_eq!(space.find(&full(&["Int"])), None);
}

#[test]
fn the_empty_path_resolves_to_the_first_entry() {
    let mut space: Space<u32> = Space::new();
    assert!(space.resolve(&partial(&[])).same(&full(&[])));
    space.push(full(&["a"]), 1);
    space.push(full(&["b"]), 2);
    assert!(space.resolve(&partial(&[])).same(&full(&["a"])));
}
