use token_vesting::pair_map::PairMap;
use token_vesting::pool::Pool;
use token_vesting::Identity;

fn key(n: u8) -> Identity {
    Identity::new([n; 32])
}

#[test]
fn a_new_map_is_empty() {
    let map: PairMap<u64> = PairMap::new();
    assert_eq!(map.len(), 0);
    assert_eq!(map.get(Pool::Team, &key(1)), None);
    assert_eq!(map.entry_at(0), None);
}

#[test]
fn put_stores_and_replaces() {
    let mut map: PairMap<u64> = PairMap::new();
    map.put(Pool::Team, key(1), 10);
    map.put(Pool::Team, key(2), 20);
    map.put(Pool::Research, key(1), 30);
    assert_eq!(map.get(Pool::Team, &key(1)), Some(10));
    assert_eq!(map.get(Pool::Team, &key(2)), Some(20));
    assert_eq!(map.get(Pool::Research, &key(1)), Some(30));
    assert_eq!(map.get(Pool::Research, &key(2)), None);
    map.put(Pool::Team, key(1), 11);
    assert_eq!(map.get(Pool::Team, &key(1)), Some(11));
    assert_eq!(map.len(), 3);
}

#[test]
fn put_keeps_the_place_of_a_pair() {
    let mut map: PairMap<u64> = PairMap::new();
    map.put(Pool::Team, key(1), 10);
    map.put(Pool::Team, key(2), 20);
    map.put(Pool::Team, key(1), 11);
    assert_eq!(map.entry_at(0), Some((Pool::Team, key(1), 11)));
    assert_eq!(map.entry_at(1), Some((Pool::Team, key(2), 20)));
    assert_eq!(map.entry_at(2), None);
}

#[test]
fn remove_takes_out_one_pair() {
    let mut map: PairMap<u64> = PairMap::new();
    map.put(Pool::Team, key(1), 10);
    map.put(Pool::Team, key(2), 20);
    map.put(Pool::Team, key(3), 30);
    assert_eq!(map.remove(Pool::Team, &key(2)), Some(20));
    assert_eq!(map.remove(Pool::Team, &key(2)), None);
    assert_eq!(map.remove(Pool::Research, &key(1)), None);
    assert_eq!(map.len(), 2);
    assert_eq!(map.get(Pool::Team, &key(2)), None);
    assert_eq!(map.entry_at(0), Some((Pool::Team, key(1), 10)));
    assert_eq!(map.entry_at(1), Some((Pool::Team, key(3), 30)));
    map.put(Pool::Team, key(2), 21);
    assert_eq!(map.entry_at(2), Some((Pool::Team, key(2), 21)));
}

#[test]
fn keys_differ_by_pool_or_by_a_single_byte() {
    let mut map: PairMap<u8> = PairMap::new();
    let mut bytes = [0u8; 32];
    map.put(Pool::Team, Identity::new(bytes), 1);
    bytes[17] = 1;
    map.put(Pool::Team, Identity::new(bytes), 2);
    map.put(Pool::Ido, Identity::new(bytes), 3);
    assert_eq!(map.len(), 3);
    assert_eq!(map.get(Pool::Team, &Identity::new([0u8; 32])), Some(1));
    assert_eq!(map.get(Pool::Team, &Identity::new(bytes)), Some(2));
    assert_eq!(map.get(Pool::Ido, &Identity::new(bytes)), Some(3));
}
