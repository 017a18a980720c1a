//! The bit-packed DNA container: four nucleotides per byte.

use vstd::prelude::*;

use crate::nuc::Nuc;
use crate::nuc::ParseNucError;
use crate::nuc::all_valid;
use crate::nuc::code_of;
use crate::nuc::fails_at;
use crate::nuc::nuc_of_char;
use crate::nuc::nuc_of_code;
use crate::nuc::nucs_of_text;
use crate::nuc::text_of;
use vstd::string::StrSliceExecFns;
use vstd::string::StringExecFns;

verus! {

/// The 2-bit group `k` (0 through 3) of one byte, counting from the least
/// significant bits.
pub open spec fn group(b: u8, k: u8) -> u8 {
    (b >> ((2 * k) as u8)) & 3
}

/// The 2-bit code stored at position `i` of a packed buffer: group `i % 4`
/// of byte `i / 4`.
pub open spec fn code_at(bytes: Seq<u8>, i: int) -> u8 {
    group(bytes[i / 4], (i % 4) as u8)
}

/// Writing code `c` into the empty group `k` of a byte leaves the groups
/// below `k` unchanged, stores `c` at `k`, and keeps the groups above `k`
/// at zero.
proof fn lemma_pack_group(b: u8, c: u8, k: u8)
    by (bit_vector)
    requires
        c < 4,
        k < 4,
        k == 0 ==> group(b, 0) == 0,
        k <= 1 ==> group(b, 1) == 0,
        k <= 2 ==> group(b, 2) == 0,
        group(b, 3) == 0,
    ensures
        forall|j: u8| j < k ==> #[trigger] group(b | (c << ((2 * k) as u8)), j) == group(b, j),
        group(b | (c << ((2 * k) as u8)), k) == c,
        forall|j: u8| k < j < 4 ==> #[trigger] group(b | (c << ((2 * k) as u8)), j) == 0,
{
}

/// Every 2-bit group of a zero byte is zero.
proof fn lemma_zero_byte_groups()
    by (bit_vector)
    ensures
        forall|j: u8| #[trigger] group(0, j) == 0,
{
}

/// An ordered run of nucleotides stored at two bits each.
///
/// The buffer holds exactly `ceil(len / 4)` bytes, and every 2-bit group
/// past the logical length is held at zero. The container is immutable
/// after construction.
pub struct PackedDna {
    bytes: Vec<u8>,
    len: usize,
}

impl View for PackedDna {
    type V = Seq<Nuc>;

    closed spec fn view(&self) -> Seq<Nuc> {
        Seq::new(self.len as nat, |i: int| nuc_of_code(code_at(self.bytes@, i)))
    }
}

impl PackedDna {
    #[verifier::type_invariant]
    spec fn wf(self) -> bool {
        &&& self.bytes@.len() == (self.len + 3) / 4
        &&& forall|i: int|
            self.len <= i < self.bytes@.len() * 4 ==> code_at(self.bytes@, i) == 0
    }

    /// The number of nucleotides in the sequence.
    pub fn len(&self) -> (n: usize)
        ensures
            n == self@.len(),
    {
        self.len
    }

    /// Builds a packed sequence from a complete run of nucleotides,
    /// consuming it fully and packing four per byte in arrival order.
    ///
    /// Cannot fail: every [`Nuc`] value is already valid by construction.
    pub fn from_iterator(iter: Vec<Nuc>) -> (pd: PackedDna)
        ensures
            pd@ == iter@,
    {
        let n = iter.len();
        let mut bytes: Vec<u8> = Vec::new();
        let mut i: usize = 0;
        while i < n
            invariant
                n == iter@.len(),
                i <= n,
                bytes@.len() == (i + 3) / 4,
                forall|j: int| 0 <= j < i ==> code_at(bytes@, j) == code_of(iter@[j]),
                forall|j: int| i <= j < bytes@.len() * 4 ==> code_at(bytes@, j) == 0,
            decreases n - i,
        {
            if i % 4 == 0 {
                proof {
                    lemma_zero_byte_groups();
                    assert(i / 4 == (i + 3) / 4);
                }
                let ghost before = bytes@;
                bytes.push(0);
                proof {
                    assert forall|j: int| 0 <= j < i implies
                        code_at(bytes@, j) == code_of(iter@[j]) by {
                        assert(j / 4 < i / 4);
                        assert(bytes@[j / 4] == before[j / 4]);
                        assert(code_at(before, j) == code_of(iter@[j]));
                        assert(code_at(bytes@, j) == code_at(before, j));
                    }
                    assert forall|j: int| i <= j < bytes@.len() * 4 implies
                        code_at(bytes@, j) == 0 by {
                        assert(j / 4 == i / 4);
                        assert(bytes@[j / 4] == 0);
                    }
                }
            }
            let bi = i / 4;
            let k: u8 = (i % 4) as u8;
            let shift: u8 = 2 * k;
            let code = iter[i].code();
            let b = bytes[bi];
            let ghost mid = bytes@;
            proof {
                assert(i == 4 * bi + k);
                assert(bytes@.len() == bi + 1);
                assert forall|j: u8| k <= j < 4 implies group(b, j) == 0 by {
                    assert(code_at(mid, bi * 4 + j) == 0);
                }
                lemma_pack_group(b, code, k);
            }
            bytes[bi] = b | (code << shift);
            proof {
                let ghost nb = b | (code << ((2 * k) as u8));
                assert(bytes@ == mid.update(bi as int, nb));
                assert forall|j: int| 0 <= j < i + 1 implies
                    code_at(bytes@, j) == code_of(iter@[j]) by {
                    if j == i {
                        assert(code_at(bytes@, j) == group(nb, k));
                    } else if j / 4 == bi {
                        assert(((j % 4) as u8) < k);
                        assert(code_at(bytes@, j) == group(nb, (j % 4) as u8));
                        assert(group(b, (j % 4) as u8) == code_at(mid, j));
                    } else {
                        assert(bytes@[j / 4] == mid[j / 4]);
                        assert(code_at(mid, j) == code_of(iter@[j]));
                        assert(code_at(bytes@, j) == code_at(mid, j));
                    }
                }
                assert forall|j: int| i + 1 <= j < bytes@.len() * 4 implies
                    code_at(bytes@, j) == 0 by {
                    assert(j / 4 == bi && ((j % 4) as u8) > k);
                    assert(code_at(bytes@, j) == group(nb, (j % 4) as u8));
                }
            }
            i += 1;
        }
        let pd = PackedDna { bytes, len: n };
        proof {
            assert forall|j: int| 0 <= j < n implies pd@[j] == iter@[j] by {
                crate::nuc::lemma_code_bijective(iter@[j]);
            }
            assert(pd@ =~= iter@);
        }
        pd
    }

    /// Parses text into a packed sequence, case-insensitively, scanning
    /// left to right and failing fast on the first character that denotes
    /// no nucleotide; the error carries exactly that character. Empty text
    /// yields the empty sequence.
    pub fn from_str(s: &str) -> (r: Result<PackedDna, ParseNucError<char>>)
        ensures
            r is Ok <==> all_valid(s@),
            r matches Ok(pd) ==> pd@ == nucs_of_text(s@),
            r matches Err(e) ==> exists|i: int| #[trigger] fails_at(s@, i) && e.0 == s@[i],
    {
        let n = s.unicode_len();
        let mut nucs: Vec<Nuc> = Vec::new();
        let mut i: usize = 0;
        while i < n
            invariant
                n == s@.len(),
                i <= n,
                nucs@.len() == i,
                forall|j: int| 0 <= j < i ==> Some(nucs@[j]) == #[trigger] nuc_of_char(s@[j]),
            decreases n - i,
        {
            let c = s.get_char(i);
            match Nuc::try_from(c) {
                Ok(nu) => {
                    nucs.push(nu);
                },
                Err(e) => {
                    proof {
                        assert(fails_at(s@, i as int));
                    }
                    return Err(e);
                },
            }
            i += 1;
        }
        proof {
            assert(nucs@ =~= nucs_of_text(s@));
        }
        Ok(PackedDna::from_iterator(nucs))
    }

    /// The nucleotide at position `idx`, decoded from the packed buffer.
    pub fn get(&self, idx: usize) -> (n: Nuc)
        requires
            idx < self@.len(),
        ensures
            n == self@[idx as int],
    {
        proof {
            use_type_invariant(self);
        }
        let b = self.bytes[idx / 4];
        let shift: u8 = 2 * ((idx % 4) as u8);
        let code = (b >> shift) & 3;
        proof {
            assert((b >> shift) & 3 < 4) by (bit_vector);
        }
        Nuc::from_code(code)
    }

    /// Bounds-checked access: the nucleotide at `idx` when `idx` is in
    /// range, and nothing at all otherwise — out-of-range access never
    /// decodes the padding bits.
    pub fn try_get(&self, idx: usize) -> (r: Option<Nuc>)
        ensures
            idx < self@.len() ==> r == Some(self@[idx as int]),
            idx >= self@.len() ==> r is None,
    {
        if idx < self.len {
            Some(self.get(idx))
        } else {
            None
        }
    }

    /// The number of bytes the packed buffer occupies: always exactly
    /// `ceil(len / 4)`, four nucleotides to the byte.
    pub fn byte_count(&self) -> (n: usize)
        ensures
            n == (self@.len() + 3) / 4,
    {
        proof {
            use_type_invariant(self);
        }
        self.bytes.len()
    }

    /// The uppercase text of the sequence: one letter per nucleotide, in
    /// order.
    pub fn to_text(&self) -> (r: String)
        ensures
            r@ == text_of(self@),
    {
        let n = self.len;
        let mut out = String::new();
        let mut i: usize = 0;
        proof {
            reveal_strlit("A");
            reveal_strlit("C");
            reveal_strlit("G");
            reveal_strlit("T");
        }
        while i < n
            invariant
                n == self@.len(),
                i <= n,
                out@ =~= text_of(self@).take(i as int),
                "A"@ =~= seq!['A'],
                "C"@ =~= seq!['C'],
                "G"@ =~= seq!['G'],
                "T"@ =~= seq!['T'],
            decreases n - i,
        {
            match self.get(i) {
                Nuc::A => out.append("A"),
                Nuc::C => out.append("C"),
                Nuc::G => out.append("G"),
                Nuc::T => out.append("T"),
            }
            proof {
                assert(out@ =~= text_of(self@).take(i + 1));
            }
            i += 1;
        }
        proof {
            assert(text_of(self@).take(n as int) =~= text_of(self@));
        }
        out
    }
}

} // verus!
