use kitties::index::KittyOwners;
use kitties::store::KittyDNAs;
use kitties::{Gender, Kitty};

fn kitty(dna: &[u8], price: u32, owner: u64) -> Kitty {
    Kitty { dna: dna.to_vec(), price, gender: Gender::Male, owner, created_date: 10 }
}

#[test]
fn store_finds_what_was_inserted() {
    let mut store = KittyDNAs::new();
    assert!(!store.contains_key(&vec![1, 2]));
    assert_eq!(store.get(&vec![1, 2]), None);

    store.insert(kitty(&[1, 2], 5, 1));
    store.insert(kitty(&[1, 3], 6, 2));
    assert!(store.contains_key(&vec![1, 2]));
    assert!(store.contains_key(&vec![1, 3]));
    assert!(!store.contains_key(&vec![1]));
    assert!(!store.contains_key(&vec![1, 2, 3]));
    assert_eq!(store.get(&vec![1, 2]), Some(&kitty(&[1, 2], 5, 1)));
    assert_eq!(store.get(&vec![1, 3]), Some(&kitty(&[1, 3], 6, 2)));
}

#[test]
fn store_insert_replaces_the_kitty_with_the_same_dna() {
    let mut store = KittyDNAs::new();
    store.insert(kitty(&[1, 2], 5, 1));
    store.insert(kitty(&[9], 1, 1));
    store.insert(kitty(&[1, 2], 8, 3));
    assert_eq!(store.get(&vec![1, 2]), Some(&kitty(&[1, 2], 8, 3)));
    assert_eq!(store.get(&vec![9]), Some(&kitty(&[9], 1, 1)));
}

#[test]
fn index_makes_a_list_on_the_first_push() {
    let mut index = KittyOwners::new();
    assert_eq!(index.get(1), None);
    index.push(1, vec![1]);
    index.push(1, vec![2]);
    index.push(2, vec![3]);
    assert_eq!(index.get(1), Some(&vec![vec![1], vec![2]]));
    assert_eq!(index.get(2), Some(&vec![vec![3]]));
    assert_eq!(index.get(3), None);
}

#[test]
fn index_swap_remove_fills_the_gap_with_the_last_entry() {
    let mut index = KittyOwners::new();
    for n in 1u8..=4 {
        index.push(7, vec![n]);
    }
    assert_eq!(index.swap_remove(7, 1), vec![2]);
    assert_eq!(index.get(7), Some(&vec![vec![1], vec![4], vec![3]]));
    assert_eq!(index.swap_remove(7, 2), vec![3]);
    assert_eq!(index.get(7), Some(&vec![vec![1], vec![4]]));
    assert_eq!(index.swap_remove(7, 0), vec![1]);
    assert_eq!(index.swap_remove(7, 0), vec![4]);
    // an emptied list stays
    assert_eq!(index.get(7), Some(&Vec::new()));
}
