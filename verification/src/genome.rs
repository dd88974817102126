//! Genomes: fixed-width genes read from raw bytes, and the colour that
//! stands for a genome.

use crate::renderer::{xrgb, Color};
use vstd::prelude::*;
use vstd::string::StringExecFns;

verus! {

/// One gene: sixteen bits that encode a single connection.
pub type Gene = u16;

/// The genes of a creature, in order.
pub struct Genome(Vec<Gene>);

/// Why a genome cannot be used.
#[derive(Debug, PartialEq, Eq, Clone, Copy, Structural)]
pub enum GenomeError {
    /// The genome has too few genes to derive anything from.
    EmptyGenome,
}

impl GenomeError {
    /// What went wrong, in words.
    pub open spec fn message_text(self) -> Seq<char> {
        "Genome is empty"@
    }

    /// What went wrong, in words.
    pub fn message(&self) -> (message: String)
        ensures
            message@ == self.message_text(),
    {
        String::from_str("Genome is empty")
    }
}

impl View for Genome {
    type V = Seq<Gene>;

    closed spec fn view(&self) -> Seq<Gene> {
        self.0@
    }
}

/// The gene that the byte pair number `k` holds, low byte first.
pub open spec fn gene_at(bytes: Seq<u8>, k: int) -> Gene {
    (bytes[2 * k] as int + bytes[2 * k + 1] as int * 256) as u16
}

/// The genes that a byte buffer holds: one for every two bytes. A trailing
/// odd byte is left out.
pub open spec fn genes_of(bytes: Seq<u8>) -> Seq<Gene> {
    Seq::new((bytes.len() / 2) as nat, |k: int| gene_at(bytes, k))
}

/// The gene at position `i` as a word, or 0 past the end of the genome.
pub open spec fn gene_or_zero(genes: Seq<Gene>, i: int) -> u32 {
    if 0 <= i < genes.len() {
        genes[i] as u32
    } else {
        0
    }
}

/// The word that the gene pair number `k` packs: the first gene of the pair in
/// the low 16 bits, the second in the high 16 bits.
pub open spec fn pair_word(genes: Seq<Gene>, k: int) -> u32 {
    (gene_or_zero(genes, 2 * k) as int + gene_or_zero(genes, 2 * k + 1) as int * 65536) as u32
}

/// The exclusive or of the words of the first `pairs` gene pairs.
pub open spec fn folded(genes: Seq<Gene>, pairs: nat) -> u32
    decreases pairs,
{
    if pairs == 0 {
        0
    } else {
        folded(genes, (pairs - 1) as nat) ^ pair_word(genes, pairs - 1)
    }
}

/// The colour of a genome: all its gene pairs folded into one word, of which
/// the low 24 bits are read as red, green and blue.
pub open spec fn fingerprint(genes: Seq<Gene>) -> (u8, u8, u8) {
    xrgb(folded(genes, ((genes.len() + 1) / 2) as nat))
}

/// The colour of the genome that a byte buffer holds is decided by the
/// bytes alone: the same bytes always give the same colour.
pub proof fn color_is_decided_by_bytes(first: Seq<u8>, second: Seq<u8>)
    requires
        first == second,
    ensures
        genes_of(first) == genes_of(second),
        fingerprint(genes_of(first)) == fingerprint(genes_of(second)),
{
}

impl Genome {
    /// Reads genes from bytes, two bytes a gene, low byte first.
    pub fn from_byte_slice(bytes: &[u8]) -> (genome: Self)
        ensures
            genome@ == genes_of(bytes@),
    {
        let mut result: Vec<Gene> = Vec::new();
        let total = bytes.len();
        let pairs = total / 2;
        let mut k: usize = 0;
        while k < pairs
            invariant
                total == bytes@.len(),
                pairs == total / 2,
                k <= pairs,
                result@.len() == k,
                forall|j: int| 0 <= j < k ==> result@[j] == gene_at(bytes@, j),
            decreases pairs - k,
        {
            let low = bytes[2 * k];
            let high = bytes[2 * k + 1];
            let gene: Gene = (low as Gene) | ((high as Gene) << 8);
            proof {
                assert((low as u16) | ((high as u16) << 8) == (low as u16) + (high as u16) * 256)
                    by (bit_vector);
            }
            result.push(gene);
            k = k + 1;
        }
        proof {
            assert(result@ =~= genes_of(bytes@));
        }
        Genome(result)
    }

    pub fn genes(&self) -> (genes: &Vec<Gene>)
        ensures
            genes@ == self@,
    {
        &self.0
    }

    /// The colour that stands for this genome. It says nothing of how the
    /// creature behaves.
    pub fn generate_color(&self) -> (color: Result<Color, GenomeError>)
        ensures
            self@.len() < 2 ==> color == Err::<Color, GenomeError>(GenomeError::EmptyGenome),
            self@.len() >= 2 ==> color is Ok && color->Ok_0@ == fingerprint(self@),
    {
        let total = self.0.len();
        if total < 2 {
            return Err(GenomeError::EmptyGenome);
        }
        let pairs = total / 2 + total % 2;
        let mut val: u32 = 0;
        let mut k: usize = 0;
        while k < pairs
            invariant
                total == self.0@.len(),
                pairs == (total + 1) / 2,
                k <= pairs,
                val == folded(self.0@, k as nat),
            decreases pairs - k,
        {
            let low = self.0[2 * k] as u32;
            let high = if 2 * k + 1 < total {
                self.0[2 * k + 1] as u32
            } else {
                0
            };
            proof {
                assert(low <= 0xFFFF && high <= 0xFFFF ==> (low | (high << 16)) == low + high
                    * 65536) by (bit_vector);
            }
            val = val ^ (low | (high << 16));
            k = k + 1;
        }
        Ok(Color::from_xrgb_u32(val))
    }
}

} // verus!
