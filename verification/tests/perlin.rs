use rayt::material::Material;
use rayt::perlin::{Perlin, POINT_COUNT};
use rayt::texture::{ImageTexture, NoiseTexture, Surface};

fn is_permutation(p: &Vec<usize>) -> bool {
    let mut seen = vec![false; p.len()];
    for &x in p.iter() {
        if x >= p.len() || seen[x] {
            return false;
        }
        seen[x] = true;
    }
    true
}

#[test]
fn permute_with_follows_its_targets() {
    let mut p: Vec<usize> = vec![10, 11, 12, 13, 14];
    Perlin::permute_with(&mut p, 5, &vec![0, 0, 1, 3, 2]);
    assert_eq!(p, vec![14, 10, 11, 13, 12]);
}

#[test]
fn permute_with_shuffles_the_beginning_only() {
    let mut p: Vec<usize> = vec![10, 11, 12, 13, 14];
    Perlin::permute_with(&mut p, 3, &vec![0, 0, 0]);
    assert_eq!(p, vec![11, 12, 10, 13, 14]);
    let mut q: Vec<usize> = vec![7];
    Perlin::permute_with(&mut q, 1, &vec![0]);
    assert_eq!(q, vec![7]);
}

#[test]
fn permute_keeps_what_there_is() {
    let mut p: Vec<usize> = (0..100).collect();
    Perlin::permute(&mut p, 60);
    assert_eq!(&p[60..], &(60..100).collect::<Vec<usize>>()[..]);
    let mut sorted = p.clone();
    sorted.sort();
    assert_eq!(sorted, (0..100).collect::<Vec<usize>>());
}

#[test]
fn a_generated_permutation_holds_each_place_once() {
    for _ in 0..20 {
        let p = Perlin::perlin_generate_perm();
        assert_eq!(p.len(), POINT_COUNT);
        assert!(is_permutation(&p));
    }
}

#[test]
fn noise_needs_a_full_table() {
    assert!(Perlin::new(vec![0; 255]).is_none());
    assert!(Perlin::new(vec![0; 257]).is_none());
    assert!(Perlin::new(Vec::new()).is_none());
    let noise = Perlin::new((0..256).collect()).unwrap();
    assert!(is_permutation(&noise.perm_x));
    assert!(is_permutation(&noise.perm_y));
    assert!(is_permutation(&noise.perm_z));
    assert_eq!(noise.ranfloat, (0..256).collect::<Vec<i64>>());
}

#[test]
fn noise_reads_the_table_through_the_permutations() {
    let noise = Perlin {
        ranfloat: (0..256).map(|i| 1000 + i as i64).collect(),
        perm_x: (0..256).collect(),
        perm_y: (0..256).map(|i| 255 - i).collect(),
        perm_z: (0..256).map(|i| (i + 1) % 256).collect(),
    };
    assert_eq!(noise.noise(0, 0, 0), 1000 + (0 ^ 255 ^ 1));
    assert_eq!(noise.noise(3, 5, 7), 1000 + (3 ^ 250 ^ 8));
    assert_eq!(noise.noise(256 + 3, 512 + 5, 7), noise.noise(3, 5, 7));
    assert_eq!(noise.noise(255, 255, 255), 1000 + (255 ^ 0 ^ 0));
}

#[test]
fn a_raster_needs_three_bytes_for_each_pixel() {
    assert!(ImageTexture::new(0, 2, Vec::new()).is_none());
    assert!(ImageTexture::new(2, 0, Vec::new()).is_none());
    assert!(ImageTexture::new(2, 2, vec![0; 11]).is_none());
    assert!(ImageTexture::new(2, 2, vec![0; 13]).is_none());
    let img = ImageTexture::new(2, 3, vec![0; 18]).unwrap();
    assert_eq!(img.width(), 2);
    assert_eq!(img.height(), 3);
}

#[test]
fn a_pixel_is_read_row_by_row_and_held_to_the_raster() {
    let data: Vec<u8> = (0..24).collect();
    let img = ImageTexture::new(4, 2, data).unwrap();
    assert_eq!(img.pixel(0, 0), [0, 1, 2]);
    assert_eq!(img.pixel(3, 0), [9, 10, 11]);
    assert_eq!(img.pixel(0, 1), [12, 13, 14]);
    assert_eq!(img.pixel(2, 1), [18, 19, 20]);
    assert_eq!(img.pixel(4, 1), [21, 22, 23]);
    assert_eq!(img.pixel(1, 2), [15, 16, 17]);
    assert_eq!(img.pixel(u32::MAX, u32::MAX), [21, 22, 23]);
}

#[test]
fn textures_over_tables() {
    assert!(NoiseTexture::new(5, vec![0; 3]).is_none());
    let n = NoiseTexture::new(5, vec![1; 256]).unwrap();
    assert_eq!(n.scale, 5);
    assert!(matches!(Surface::new_noise_texture(5, vec![1; 256]), Some(Surface::NoiseTexture(_))));
    assert!(Surface::new_noise_texture(5, vec![1; 2]).is_none());
    assert!(matches!(Surface::new_image_texture(1, 1, vec![1, 2, 3]), Some(Surface::ImageTexture(_))));
    assert!(Surface::new_image_texture(1, 1, vec![1, 2]).is_none());
    assert!(matches!(Material::new_noise_lamb(4, vec![0; 256]), Some(Material::Lambertian(_))));
    assert!(Material::new_noise_lamb(4, vec![0; 1]).is_none());
    assert!(matches!(Material::new_image_tex(1, 2, vec![0; 6]), Some(Material::Lambertian(_))));
    assert!(Material::new_image_tex(1, 2, vec![0; 5]).is_none());
}

#[test]
fn a_generated_permutation_is_shuffled() {
    let identity: Vec<usize> = (0..POINT_COUNT).collect();
    assert_ne!(Perlin::perlin_generate_perm(), identity);
    let mut p: Vec<usize> = (0..64).collect();
    Perlin::permute(&mut p, 64);
    assert_ne!(p, (0..64).collect::<Vec<usize>>());
}

#[test]
fn permute_of_two_exchanges_them() {
    let mut p: Vec<usize> = vec![10, 11, 12];
    Perlin::permute(&mut p, 2);
    assert_eq!(p, vec![11, 10, 12]);
    let mut q: Vec<usize> = vec![10, 11, 12];
    Perlin::permute(&mut q, 1);
    assert_eq!(q, vec![10, 11, 12]);
}

#[test]
fn permute_moves_the_last_entry_down() {
    for _ in 0..20 {
        let mut p: Vec<usize> = (0..32).collect();
        Perlin::permute(&mut p, 32);
        assert_ne!(p[31], 31);
    }
}
