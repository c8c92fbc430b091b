use lighthouse_proofs::cached_tree_hash::{grow_merkle_cache, HASHSIZE};

#[test]
fn can_grow_three_levels() {
    let from: usize = 1;
    let to: usize = 15;

    let old_bytes = vec![42; from * HASHSIZE];
    let old_flags = vec![false; from];

    let (new_bytes, new_flags) = grow_merkle_cache(
        &old_bytes,
        &old_flags,
        (from + 1).trailing_zeros() as usize - 1,
        (to + 1).trailing_zeros() as usize - 1,
    )
    .unwrap();

    let mut expected_bytes = vec![];
    let mut expected_flags = vec![];
    // First level
    expected_bytes.append(&mut vec![0; 32]);
    expected_flags.push(true);
    // Second level
    expected_bytes.append(&mut vec![0; 32]);
    expected_bytes.append(&mut vec![0; 32]);
    expected_flags.push(true);
    expected_flags.push(true);
    // Third level
    expected_bytes.append(&mut vec![0; 32]);
    expected_bytes.append(&mut vec![0; 32]);
    expected_bytes.append(&mut vec![0; 32]);
    expected_bytes.append(&mut vec![0; 32]);
    expected_flags.push(true);
    expected_flags.push(true);
    expected_flags.push(true);
    expected_flags.push(true);
    // Fourth level
    expected_bytes.append(&mut vec![42; 32]);
    expected_bytes.append(&mut vec![0; 32]);
    expected_bytes.append(&mut vec![0; 32]);
    expected_bytes.append(&mut vec![0; 32]);
    expected_bytes.append(&mut vec![0; 32]);
    expected_bytes.append(&mut vec![0; 32]);
    expected_bytes.append(&mut vec![0; 32]);
    expected_bytes.append(&mut vec![0; 32]);
    expected_flags.push(false);
    expected_flags.push(true);
    expected_flags.push(true);
    expected_flags.push(true);
    expected_flags.push(true);
    expected_flags.push(true);
    expected_flags.push(true);
    expected_flags.push(true);

    assert_eq!(expected_bytes, new_bytes);
    assert_eq!(expected_flags, new_flags);
}

#[test]
fn can_grow_one_level() {
    let from: usize = 7;
    let to: usize = 15;

    let old_bytes = vec![42; from * HASHSIZE];
    let old_flags = vec![false; from];

    let (new_bytes, new_flags) = grow_merkle_cache(
        &old_bytes,
        &old_flags,
        (from + 1).trailing_zeros() as usize - 1,
        (to + 1).trailing_zeros() as usize - 1,
    )
    .unwrap();

    let mut expected_bytes = vec![];
    let mut expected_flags = vec![];
    // First level
    expected_bytes.append(&mut vec![0; 32]);
    expected_flags.push(true);
    // Second level
    expected_bytes.append(&mut vec![42; 32]);
    expected_bytes.append(&mut vec![0; 32]);
    expected_flags.push(false);
    expected_flags.push(true);
    // Third level
    expected_bytes.append(&mut vec![42; 32]);
    expected_bytes.append(&mut vec![42; 32]);
    expected_bytes.append(&mut vec![0; 32]);
    expected_bytes.append(&mut vec![0; 32]);
    expected_flags.push(false);
    expected_flags.push(false);
    expected_flags.push(true);
    expected_flags.push(true);
    // Fourth level
    expected_bytes.append(&mut vec![42; 32]);
    expected_bytes.append(&mut vec![42; 32]);
    expected_bytes.append(&mut vec![42; 32]);
    expected_bytes.append(&mut vec![42; 32]);
    expected_bytes.append(&mut vec![0; 32]);
    expected_bytes.append(&mut vec![0; 32]);
    expected_bytes.append(&mut vec![0; 32]);
    expected_bytes.append(&mut vec![0; 32]);
    expected_flags.push(false);
    expected_flags.push(false);
    expected_flags.push(false);
    expected_flags.push(false);
    expected_flags.push(true);
    expected_flags.push(true);
    expected_flags.push(true);
    expected_flags.push(true);

    assert_eq!(expected_bytes, new_bytes);
    assert_eq!(expected_flags, new_flags);
}

#[test]
fn grow_refuses_short_flags() {
    // Three nodes of bytes but no flags: the upper level's flags are missing.
    let old_bytes = vec![7; 3 * HASHSIZE];
    let old_flags: Vec<bool> = vec![];
    assert!(grow_merkle_cache(&old_bytes, &old_flags, 1, 2).is_none());
}

#[test]
fn grow_same_height_copies_tree() {
    let old_bytes: Vec<u8> = (0..96).map(|i| i as u8).collect();
    let old_flags = vec![false, true, false];
    let (b, f) = grow_merkle_cache(&old_bytes, &old_flags, 1, 1).unwrap();
    assert_eq!(b, old_bytes);
    assert_eq!(f, old_flags);
}
