use biosim::genome::{Genome, GenomeError};
use biosim::renderer::Color;

#[test]
fn color_from_genome() {
    let bytes: [u8; 4] = [100, 34, 90, 210];
    let genome = Genome::from_byte_slice(&bytes);

    let color = genome.generate_color().unwrap();
    assert_eq!(color, Color::new(90, 34, 100));
}

#[test]
fn genome_color_from_genome() {
    let bytes: [u8; 4] = [100, 34, 90, 210];
    let genome = Genome::from_byte_slice(&bytes);

    let color = genome.generate_color().unwrap();
    assert_eq!(color, Color::new(90, 34, 100));
}

#[test]
fn genes_are_read_low_byte_first() {
    let genome = Genome::from_byte_slice(&[0x34, 0x12, 0xff, 0x00, 0x00, 0xff]);
    assert_eq!(genome.genes(), &vec![0x1234, 0x00ff, 0xff00]);
}

#[test]
fn odd_trailing_byte_is_ignored() {
    let genome = Genome::from_byte_slice(&[1, 0, 2, 0, 3]);
    assert_eq!(genome.genes(), &vec![1, 2]);
}

#[test]
fn no_bytes_no_genes() {
    assert!(Genome::from_byte_slice(&[]).genes().is_empty());
    assert!(Genome::from_byte_slice(&[7]).genes().is_empty());
}

#[test]
fn genome_without_a_gene_pair_has_no_color() {
    let none = Genome::from_byte_slice(&[]);
    assert_eq!(none.generate_color(), Err(GenomeError::EmptyGenome));

    let one = Genome::from_byte_slice(&[1, 2]);
    assert_eq!(one.generate_color(), Err(GenomeError::EmptyGenome));
}

#[test]
fn later_gene_pairs_are_folded_in() {
    // genes 0x2264, 0xd25a, 0x00ff, 0x1100:
    // 0xd25a2264 ^ 0x110000ff = 0xc35a229b
    let genome = Genome::from_byte_slice(&[0x64, 0x22, 0x5a, 0xd2, 0xff, 0x00, 0x00, 0x11]);
    let color = genome.generate_color().unwrap();
    assert_eq!(color, Color::new(0x5a, 0x22, 0x9b));
    assert_eq!(color, Color::from_xrgb_u32(0xc35a229b));
}

#[test]
fn last_gene_without_partner_is_paired_with_zero() {
    // genes 0x2264, 0xd25a, 0x0f0f: 0xd25a2264 ^ 0x00000f0f = 0xd25a2d6b
    let genome = Genome::from_byte_slice(&[0x64, 0x22, 0x5a, 0xd2, 0x0f, 0x0f]);
    let color = genome.generate_color().unwrap();
    assert_eq!(color, Color::new(0x5a, 0x2d, 0x6b));
}

#[test]
fn color_depends_on_the_bytes_alone() {
    let bytes = [9u8, 200, 13, 77, 1, 2, 3, 4, 250, 251];
    let first = Genome::from_byte_slice(&bytes).generate_color();
    let second = Genome::from_byte_slice(&bytes).generate_color();
    assert_eq!(first, second);
    assert_eq!(first, Ok(Color::from_xrgb_u32(0x4d0dc809 ^ 0x04030201 ^ 0x0000fbfa)));
}

#[test]
fn high_byte_of_the_folded_word_is_dropped() {
    let genome = Genome::from_byte_slice(&[0x01, 0x02, 0x03, 0xff]);
    assert_eq!(genome.generate_color(), Ok(Color::new(3, 2, 1)));
}
