use mnemosyne::forktable::ForkTable;

#[test]
fn test_get_defined() {
    let mut table: ForkTable<isize, &str> = ForkTable::new();
    assert_eq!(table.get(&1), None);
    table.insert(1, "One");
    assert_eq!(table.get(&1), Some(&"One"));
}

#[test]
fn test_get_undefined() {
    let mut table: ForkTable<isize, &str> = ForkTable::new();
    table.insert(1, "One");
    assert_eq!(table.get(&2), None);
}

#[test]
fn test_get_multilevel() {
    let mut level_1: ForkTable<isize, &str> = ForkTable::new();
    level_1.insert(1, "One");

    let level_2: ForkTable<isize, &str> = level_1.fork();
    assert_eq!(level_2.get(&1), Some(&"One"));
}

#[test]
fn test_get_mut_defined() {
    let mut table: ForkTable<isize, &str> = ForkTable::new();
    assert_eq!(table.get_mut(&1), None);
    table.insert(1, "One");
    assert_eq!(table.get_mut(&1), Some(&mut "One"));
}

#[test]
fn test_get_mut_undefined() {
    let mut table: ForkTable<isize, &str> = ForkTable::new();
    table.insert(1, "One");
    assert_eq!(table.get_mut(&2), None);
}

#[test]
fn test_get_mut_multilevel() {
    let mut level_1: ForkTable<isize, &str> = ForkTable::new();
    level_1.insert(1, "One");

    let mut level_2: ForkTable<isize, &str> = level_1.fork();
    assert_eq!(level_2.get_mut(&1), None);
}

#[test]
fn test_remove_returned() {
    let mut table: ForkTable<isize, &str> = ForkTable::new();
    table.insert(1, "One");
    assert_eq!(table.remove(&1), Some("One"));
}

#[test]
fn test_remove_not_defined_after() {
    let mut table: ForkTable<isize, &str> = ForkTable::new();
    table.insert(1, "One");
    table.remove(&1);
    assert_eq!(table.get(&1), None);
}

#[test]
fn test_remove_multilevel() {
    let mut level_1: ForkTable<isize, &str> = ForkTable::new();
    level_1.insert(1, "One");
    assert_eq!(level_1.contains_key(&1), true);

    let mut level_2: ForkTable<isize, &str> = level_1.fork();
    assert_eq!(level_2.chain_contains_key(&1), true);
    assert_eq!(level_2.remove(&1), None);
    assert_eq!(level_2.chain_contains_key(&1), false);
}

#[test]
fn test_insert_defined_after() {
    let mut table: ForkTable<isize, &str> = ForkTable::new();
    assert_eq!(table.get(&1), None);
    table.insert(1, "One");
    assert_eq!(table.get(&1), Some(&"One"));
}

#[test]
fn test_insert_overwrite() {
    let mut table: ForkTable<isize, &str> = ForkTable::new();
    assert_eq!(table.get(&1), None);
    assert_eq!(table.insert(1, "one"), None);
    assert_eq!(table.get(&1), Some(&"one"));

    assert_eq!(table.insert(1, "One"), Some("one"));
    assert_eq!(table.get(&1), Some(&"One"));
}

#[test]
fn test_contains_key() {
    let mut table: ForkTable<isize, &str> = ForkTable::new();
    assert_eq!(table.contains_key(&1), false);
    table.insert(1, "One");
    assert_eq!(table.contains_key(&1), true);
}

#[test]
fn test_contains_key_this_level_only() {
    let mut level_1: ForkTable<isize, &str> = ForkTable::new();
    assert_eq!(level_1.contains_key(&1), false);
    level_1.insert(1, "One");
    assert_eq!(level_1.contains_key(&1), true);

    let level_2: ForkTable<isize, &str> = level_1.fork();
    assert_eq!(level_2.contains_key(&1), false);
}

#[test]
fn test_chain_contains_key_this_level() {
    let mut table: ForkTable<isize, &str> = ForkTable::new();
    assert_eq!(table.chain_contains_key(&1), false);
    table.insert(1, "One");
    assert_eq!(table.chain_contains_key(&1), true);
}

#[test]
fn test_contains_key_multilevel() {
    let mut level_1: ForkTable<isize, &str> = ForkTable::new();
    assert_eq!(level_1.chain_contains_key(&1), false);
    level_1.insert(1, "One");
    assert_eq!(level_1.chain_contains_key(&1), true);

    let level_2: ForkTable<isize, &str> = level_1.fork();
    assert_eq!(level_2.chain_contains_key(&1), true);
}

#[test]
fn test_indexing() {
    let mut table: ForkTable<isize, &str> = ForkTable::new();
    table.insert(1, "One");
    assert_eq!(table[&1], "One");
}

#[test]
fn test_index_mut() {
    let mut table: ForkTable<isize, &str> = ForkTable::new();
    table.insert(1, "One");
    table[&1] = "one";
    assert_eq!(table[&1], "one")
}

#[test]
fn scope_chain_round_trip() {
    let mut root: ForkTable<String, u64> = ForkTable::new();
    root.insert("x".to_string(), 1);
    {
        let mut child = root.fork();
        assert_eq!(child.get(&"x".to_string()), Some(&1));
        child.insert("x".to_string(), 2);
        assert_eq!(child.get(&"x".to_string()), Some(&2));
    }
    assert_eq!(root.get(&"x".to_string()), Some(&1));
}

#[test]
fn removed_name_is_invisible_below_and_rebinding_shows_it_again() {
    let mut root: ForkTable<String, u64> = ForkTable::new();
    root.insert("x".to_string(), 1);
    {
        let mut child = root.fork();
        assert_eq!(child.remove(&"x".to_string()), None);
        assert_eq!(child.get(&"x".to_string()), None);
        assert_eq!(child.contains_key(&"x".to_string()), false);
        {
            let grandchild = child.fork();
            assert_eq!(grandchild.get(&"x".to_string()), None);
            assert_eq!(grandchild.chain_contains_key(&"x".to_string()), false);
        }
        assert_eq!(child.insert("x".to_string(), 7), None);
        assert_eq!(child.get(&"x".to_string()), Some(&7));
        let grandchild = child.fork();
        assert_eq!(grandchild.get(&"x".to_string()), Some(&7));
    }
    assert_eq!(root.get(&"x".to_string()), Some(&1));
}

#[test]
fn removing_a_local_binding_hides_the_parent_binding_too() {
    let mut root: ForkTable<isize, &str> = ForkTable::new();
    root.insert(1, "outer");
    let mut child = root.fork();
    child.insert(1, "inner");
    assert_eq!(child.remove(&1), Some("inner"));
    assert_eq!(child.get(&1), None);
}

#[test]
fn expose_restores_the_parent_binding() {
    let mut root: ForkTable<isize, &str> = ForkTable::new();
    root.insert(1, "outer");
    let mut child = root.fork();
    child.insert(1, "inner");
    assert_eq!(child.remove(&1), Some("inner"));
    assert_eq!(child.expose(&1), None);
    assert_eq!(child.get(&1), Some(&"outer"));
    child.insert(1, "inner");
    assert_eq!(child.expose(&1), Some("inner"));
    assert_eq!(child.get(&1), Some(&"outer"));
}

#[test]
fn fork_isolation_on_every_key() {
    let mut root: ForkTable<isize, isize> = ForkTable::new();
    for k in 0..8 {
        root.insert(k, k * 10);
    }
    {
        let mut child = root.fork();
        for k in 0..8 {
            if k % 2 == 0 {
                child.insert(k, -1);
            } else {
                child.remove(&k);
            }
        }
        for k in 0..8 {
            if k % 2 == 0 {
                assert_eq!(child.get(&k), Some(&-1));
            } else {
                assert_eq!(child.get(&k), None);
            }
        }
    }
    for k in 0..8 {
        assert_eq!(root.get(&k), Some(&(k * 10)));
    }
}

#[test]
fn keys_and_values_walk_the_level_in_step() {
    let mut table: ForkTable<isize, &str> = ForkTable::new();
    table.insert(3, "three");
    table.insert(1, "one");
    table.insert(3, "drei");
    table.insert(2, "two");
    table.remove(&1);
    let keys = table.keys();
    let values = table.values();
    assert_eq!(keys.len(), 2);
    assert_eq!(values.len(), 2);
    for i in 0..keys.len() {
        assert_eq!(table.get(keys[i]), Some(values[i]));
    }
    let mut sorted: Vec<isize> = keys.iter().map(|k| **k).collect();
    sorted.sort();
    assert_eq!(sorted, vec![2, 3]);
}

#[test]
fn shared_fork_outlives_the_handle_it_was_forked_from() {
    let child = {
        let mut root: ForkTable<String, u64> = ForkTable::new();
        root.insert("x".to_string(), 1);
        let shared = std::rc::Rc::new(root);
        let mut child = ForkTable::fork_shared(&shared);
        child.insert("y".to_string(), 2);
        child
    };
    assert_eq!(child.get(&"x".to_string()), Some(&1));
    assert_eq!(child.get(&"y".to_string()), Some(&2));
    assert_eq!(child.contains_key(&"x".to_string()), false);
}

#[test]
fn clone_keeps_bindings_whiteouts_and_parent() {
    let mut root: ForkTable<isize, String> = ForkTable::new();
    root.insert(1, "one".to_string());
    root.insert(2, "two".to_string());
    let mut child = root.fork();
    child.insert(3, "three".to_string());
    child.remove(&2);
    let copy = child.clone();
    assert_eq!(copy.get(&1), Some(&"one".to_string()));
    assert_eq!(copy.get(&2), None);
    assert_eq!(copy.get(&3), Some(&"three".to_string()));
}

#[test]
fn keys_of_other_kinds() {
    let mut bytes: ForkTable<u8, char> = ForkTable::new();
    bytes.insert(65, 'A');
    assert_eq!(bytes.get(&65), Some(&'A'));
    assert_eq!(bytes.get(&66), None);
    let mut letters: ForkTable<char, bool> = ForkTable::new();
    letters.insert('a', true);
    assert_eq!(letters.remove(&'a'), Some(true));
    assert_eq!(letters.get(&'a'), None);
    let mut names: ForkTable<&str, i64> = ForkTable::new();
    names.insert("one", 1);
    let child = names.fork();
    assert_eq!(child.get(&"one"), Some(&1));
    assert_eq!(child.get(&"two"), None);
    let mut flags: ForkTable<bool, usize> = ForkTable::new();
    flags.insert(true, 1);
    flags.insert(false, 0);
    assert_eq!(flags.keys().len(), 2);
    let mut wide: ForkTable<i64, u32> = ForkTable::new();
    wide.insert(i64::MIN, 7);
    assert!(wide.chain_contains_key(&i64::MIN));
}

#[test]
fn a_key_is_never_both_bound_and_whited_out() {
    let mut root: ForkTable<isize, &str> = ForkTable::new();
    root.insert(1, "outer");
    let mut child = root.fork();
    child.remove(&1);
    assert_eq!(child.get(&1), None);
    child.insert(1, "inner");
    assert_eq!(child.get(&1), Some(&"inner"));
    assert_eq!(child.expose(&1), Some("inner"));
    // the whiteout went when the key was bound: the parent's binding shows
    assert_eq!(child.get(&1), Some(&"outer"));
}
