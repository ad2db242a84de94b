use rand::SeedableRng;
use rust_raytracing::perlin::Perlin;

#[test]
fn perm_table_is_a_permutation() {
    let mut rng = rand::rngs::StdRng::seed_from_u64(42);
    let p = Perlin::perlin_generate_perm(&mut rng);
    assert_eq!(p.len(), 256);
    let mut sorted = p.clone();
    sorted.sort();
    let identity: Vec<u32> = (0..256).collect();
    assert_eq!(sorted, identity);
}

#[test]
fn perm_table_is_shuffled() {
    let mut rng = rand::rngs::StdRng::seed_from_u64(1);
    let p = Perlin::perlin_generate_perm(&mut rng);
    let identity: Vec<u32> = (0..256).collect();
    assert_ne!(p, identity);
}

#[test]
fn perm_table_deterministic_for_a_seed() {
    let mut rng1 = rand::rngs::StdRng::seed_from_u64(7);
    let mut rng2 = rand::rngs::StdRng::seed_from_u64(7);
    let p1 = Perlin::perlin_generate_perm(&mut rng1);
    let p2 = Perlin::perlin_generate_perm(&mut rng2);
    assert_eq!(p1, p2);
    let q1 = Perlin::new(&mut rng1);
    let mut rng3 = rand::rngs::StdRng::seed_from_u64(7);
    let _ = Perlin::perlin_generate_perm(&mut rng3);
    let q2 = Perlin::new(&mut rng3);
    assert_eq!(q1.perm_x, q2.perm_x);
    assert_eq!(q1.perm_y, q2.perm_y);
    assert_eq!(q1.perm_z, q2.perm_z);
}

#[test]
fn gradient_index_matches_tables() {
    let mut rng = rand::rngs::StdRng::seed_from_u64(3);
    let p = Perlin::new(&mut rng);
    for &(i, j, k) in &[(0u32, 0u32, 0u32), (5, 17, 250), (255, 256, 1000)] {
        for &(di, dj, dk) in &[(0u32, 0u32, 0u32), (1, 0, 1), (1, 1, 1)] {
            let expected = p.perm_x[((i as u64 + di as u64) % 256) as usize]
                ^ p.perm_y[((j as u64 + dj as u64) % 256) as usize]
                ^ p.perm_z[((k as u64 + dk as u64) % 256) as usize];
            assert_eq!(p.gradient_index(i, j, k, di, dj, dk), expected);
        }
    }
}

#[test]
fn gradient_index_wraps_and_stays_in_range() {
    let mut rng = rand::rngs::StdRng::seed_from_u64(9);
    let p = Perlin::new(&mut rng);
    // Adding the corner offset to the largest coordinate wraps to 0.
    let r = p.gradient_index(u32::MAX, 0, 0, 1, 0, 0);
    let expected = p.perm_x[0] ^ p.perm_y[0] ^ p.perm_z[0];
    assert_eq!(r, expected);
    for i in 0..64u32 {
        let g = p.gradient_index(i * 37, i * 11, i * 5, 1, 1, 0);
        assert!(g < 256);
    }
}
