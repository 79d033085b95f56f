use gui::util::{RecycleList, Space};

#[test]
fn space_occupy_returns_the_stored_link() {
    let mut s: Space<&str> = Space::Vacant(7);
    assert!(s.is_vacant());
    assert!(!s.is_occupied());
    let link = s.occupy("hello");
    assert_eq!(link, 7);
    assert!(s.is_occupied());
    assert_eq!(s.get(), Some(&"hello"));
}

#[test]
fn space_vacate_returns_the_occupant() {
    let mut s: Space<u32> = Space::Occupied(99);
    let v = s.vacate(3);
    assert_eq!(v, 99);
    assert!(s.is_vacant());
    assert_eq!(s.get(), None);
}

#[test]
fn space_get_mut_edits_in_place() {
    let mut s: Space<u32> = Space::Occupied(1);
    if let Some(d) = s.get_mut() {
        *d = 42;
    }
    assert_eq!(s.get(), Some(&42));
    let mut v: Space<u32> = Space::Vacant(0);
    assert!(v.get_mut().is_none());
}

#[test]
fn recycle_list_insert_assigns_consecutive_fresh_indices() {
    let mut l: RecycleList<String> = RecycleList::new();
    assert_eq!(l.len(), 0);
    assert_eq!(l.insert("a".to_string()), 0);
    assert_eq!(l.insert("b".to_string()), 1);
    assert_eq!(l.insert("c".to_string()), 2);
    assert_eq!(l.len(), 3);
    assert_eq!(l.get(0).unwrap().as_str(), "a");
    assert_eq!(l.get(1).unwrap().as_str(), "b");
    assert_eq!(l.get(2).unwrap().as_str(), "c");
}

#[test]
fn recycle_list_remove_frees_the_slot_but_keeps_length() {
    let mut l: RecycleList<u32> = RecycleList::new();
    l.insert(10);
    l.insert(20);
    l.insert(30);
    assert_eq!(l.remove(1), 20);
    assert_eq!(l.len(), 3);
    assert!(!l.contains(1));
    assert!(l.contains(0));
    assert!(l.contains(2));
    assert!(l.get(1).is_err());
}

#[test]
fn recycle_list_recycles_the_vacated_slot_first() {
    let mut l: RecycleList<u32> = RecycleList::new();
    l.insert(10);
    l.insert(20);
    l.insert(30);
    l.remove(1);
    assert_eq!(l.insert(21), 1);
    assert_eq!(l.len(), 3);
    assert_eq!(l.get(1).unwrap(), &21);
    assert_eq!(l.insert(40), 3);
}

#[test]
fn recycle_list_recycles_most_recently_freed_first() {
    let mut l: RecycleList<u32> = RecycleList::new();
    l.insert(0);
    l.insert(1);
    l.insert(2);
    l.insert(3);
    l.remove(0);
    l.remove(2);
    assert_eq!(l.insert(102), 2);
    assert_eq!(l.insert(100), 0);
    assert_eq!(l.insert(104), 4);
    assert_eq!(l.len(), 5);
}

#[test]
fn recycle_list_get_mut_edits_the_occupant() {
    let mut l: RecycleList<u32> = RecycleList::new();
    let idx = l.insert(5);
    if let Ok(d) = l.get_mut(idx) {
        *d = 55;
    }
    assert_eq!(l.get(idx).unwrap(), &55);
    l.remove(idx);
    assert!(l.get_mut(idx).is_err());
}
