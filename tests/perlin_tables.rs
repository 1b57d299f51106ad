use path_tracer::perlin::{Perlin, POINT_COUNT};

fn is_permutation(p: &[i64], n: i64) -> bool {
    let mut seen = vec![false; n as usize];
    if p.len() != n as usize {
        return false;
    }
    for &v in p {
        if v < 0 || v >= n || seen[v as usize] {
            return false;
        }
        seen[v as usize] = true;
    }
    true
}

#[test]
fn generated_table_is_a_permutation() {
    let p = Perlin::perlin_generate_perm();
    assert!(is_permutation(&p, POINT_COUNT));
}

#[test]
fn new_tables_are_permutations() {
    let perlin = Perlin::new();
    assert!(is_permutation(&perlin.perm_x, 256));
    assert!(is_permutation(&perlin.perm_y, 256));
    assert!(is_permutation(&perlin.perm_z, 256));
}

#[test]
fn permute_keeps_the_entries() {
    let mut p: Vec<i64> = (0..10).map(|i| i * 3).collect();
    Perlin::permute(&mut p, 10);
    let mut sorted = p.clone();
    sorted.sort();
    assert_eq!(sorted, (0..10).map(|i| i * 3).collect::<Vec<i64>>());
}

#[test]
fn permute_leaves_the_tail_alone() {
    let mut p: Vec<i64> = vec![5, 6, 7, 8, 9, 10];
    Perlin::permute(&mut p, 3);
    assert_eq!(&p[3..], &[8, 9, 10]);
    let mut head = p[..3].to_vec();
    head.sort();
    assert_eq!(head, vec![5, 6, 7]);
}

#[test]
fn permute_of_one_or_none_is_identity() {
    let mut p: Vec<i64> = vec![4, 2, 9];
    Perlin::permute(&mut p, 1);
    assert_eq!(p, vec![4, 2, 9]);
    Perlin::permute(&mut p, 0);
    assert_eq!(p, vec![4, 2, 9]);
}

fn fixed_tables() -> Perlin {
    let ident: Vec<i64> = (0..256).collect();
    let rev: Vec<i64> = (0..256).rev().collect();
    Perlin { perm_x: ident.clone(), perm_y: rev, perm_z: ident }
}

#[test]
fn lattice_index_combines_by_xor() {
    let perlin = fixed_tables();
    // x: 3, y: 255 - 4 = 251, z: 5 ^ 1 -> slots 3, 4, 6
    assert_eq!(perlin.lattice_index(3, 4, 5, 0, 0, 1), (3 ^ 251 ^ 6) as usize);
}

#[test]
fn lattice_index_wraps_negative_coordinates() {
    let perlin = fixed_tables();
    // -1 folds to slot 255, and -1 + 1 to slot 0.
    assert_eq!(perlin.lattice_index(-1, 0, 0, 0, 0, 0), (255 ^ 255 ^ 0) as usize);
    assert_eq!(perlin.lattice_index(-1, -1, -1, 1, 1, 1), (0 ^ 255 ^ 0) as usize);
    assert_eq!(perlin.lattice_index(-257, 0, 0, 0, 0, 0), 255 ^ 255);
}

#[test]
fn lattice_index_wraps_large_coordinates() {
    let perlin = fixed_tables();
    assert_eq!(perlin.lattice_index(255, 0, 0, 1, 0, 0), 0 ^ 255);
    assert_eq!(perlin.lattice_index(i64::MAX, 0, 0, 1, 0, 0), 0 ^ 255);
    assert_eq!(perlin.lattice_index(i64::MIN, 0, 0, 0, 0, 0), 0 ^ 255);
}

#[test]
fn lattice_index_stays_in_table() {
    let perlin = Perlin::new();
    for i in -300..300 {
        let r = perlin.lattice_index(i, i * 7, -i, 1, 0, 1);
        assert!(r < 256);
    }
}

#[test]
fn permute_with_applies_swaps_from_the_top() {
    let mut p: Vec<i64> = vec![10, 20, 30, 40];
    Perlin::permute_with(&mut p, 4, &vec![0, 0, 1, 0]);
    assert_eq!(p, vec![30, 40, 20, 10]);
}

#[test]
fn permute_with_self_targets_is_identity() {
    let mut p: Vec<i64> = vec![7, 8, 9, 10, 11];
    Perlin::permute_with(&mut p, 5, &vec![0, 1, 2, 3, 4]);
    assert_eq!(p, vec![7, 8, 9, 10, 11]);
}

#[test]
fn permute_with_reverses_by_swapping_ends() {
    let mut p: Vec<i64> = vec![1, 2, 3, 4, 5, 6];
    // position 5 <-> 0, 4 <-> 1, 3 <-> 2, then the rest in place
    Perlin::permute_with(&mut p, 6, &vec![0, 1, 2, 2, 1, 0]);
    assert_eq!(p, vec![6, 5, 4, 3, 2, 1]);
}

#[test]
fn permute_with_stops_at_n() {
    let mut p: Vec<i64> = vec![1, 2, 3, 4];
    Perlin::permute_with(&mut p, 2, &vec![0, 0]);
    assert_eq!(p, vec![2, 1, 3, 4]);
}

#[test]
fn generated_table_is_shuffled() {
    let p = Perlin::perlin_generate_perm();
    assert_ne!(p, (0..256).collect::<Vec<i64>>());
}
