//! The four-letter nucleotide alphabet and its text-parsing rules.

use vstd::prelude::*;
use vstd::string::StrSliceExecFns;

verus! {

/// Relies on `str::to_ascii_uppercase`: ASCII letters `a` to `z` are
/// mapped to `A` to `Z`, every other character is unchanged.
#[verifier::external_body]
fn ascii_uppercase(s: &str) -> (r: String)
    ensures
        r@ == upper_seq(s@),
{
    s.to_ascii_uppercase()
}

/// A nucleotide.
#[derive(Debug, Clone, Copy, PartialEq, Eq, Hash, Structural)]
pub enum Nuc {
    /// Adenine
    A,
    /// Cytosine
    C,
    /// Guanine
    G,
    /// Thymine
    T,
}

/// An error that can occur when parsing a nucleotide.
///
/// Carries the offending input unit: the rejected character, or the
/// rejected token normalized to uppercase.
#[derive(Debug)]
pub struct ParseNucError<T>(pub T);

/// The fixed 2-bit code of a nucleotide: A is 0, C is 1, G is 2, T is 3.
pub open spec fn code_of(n: Nuc) -> u8 {
    match n {
        Nuc::A => 0,
        Nuc::C => 1,
        Nuc::G => 2,
        Nuc::T => 3,
    }
}

/// The nucleotide denoted by a 2-bit code; the exact inverse of [`code_of`]
/// on codes 0 through 3.
pub open spec fn nuc_of_code(c: u8) -> Nuc {
    if c == 0 {
        Nuc::A
    } else if c == 1 {
        Nuc::C
    } else if c == 2 {
        Nuc::G
    } else {
        Nuc::T
    }
}

/// Which nucleotide, if any, a character denotes, case-insensitively.
pub open spec fn nuc_of_char(c: char) -> Option<Nuc> {
    if c == 'A' || c == 'a' {
        Some(Nuc::A)
    } else if c == 'C' || c == 'c' {
        Some(Nuc::C)
    } else if c == 'G' || c == 'g' {
        Some(Nuc::G)
    } else if c == 'T' || c == 't' {
        Some(Nuc::T)
    } else {
        None
    }
}

/// The uppercase letter that denotes a nucleotide.
pub open spec fn char_of_nuc(n: Nuc) -> char {
    match n {
        Nuc::A => 'A',
        Nuc::C => 'C',
        Nuc::G => 'G',
        Nuc::T => 'T',
    }
}

impl Nuc {
    /// The 2-bit code of this nucleotide.
    pub fn code(self) -> (c: u8)
        ensures
            c == code_of(self),
    {
        match self {
            Nuc::A => 0,
            Nuc::C => 1,
            Nuc::G => 2,
            Nuc::T => 3,
        }
    }

    /// The nucleotide with the given 2-bit code.
    pub fn from_code(c: u8) -> (n: Nuc)
        requires
            c < 4,
        ensures
            n == nuc_of_code(c),
    {
        if c == 0 {
            Nuc::A
        } else if c == 1 {
            Nuc::C
        } else if c == 2 {
            Nuc::G
        } else {
            Nuc::T
        }
    }

    /// Parses a nucleotide from one character, case-insensitively.
    ///
    /// Fails exactly on characters outside `{A, a, C, c, G, g, T, t}`, and
    /// the error carries the rejected character itself.
    pub fn try_from(value: char) -> (r: Result<Nuc, ParseNucError<char>>)
        ensures
            r matches Ok(n) ==> nuc_of_char(value) == Some(n),
            r matches Err(e) ==> nuc_of_char(value) is None && e.0 == value,
            r is Ok <==> nuc_of_char(value) is Some,
    {
        if value == 'A' || value == 'a' {
            Ok(Nuc::A)
        } else if value == 'C' || value == 'c' {
            Ok(Nuc::C)
        } else if value == 'G' || value == 'g' {
            Ok(Nuc::G)
        } else if value == 'T' || value == 't' {
            Ok(Nuc::T)
        } else {
            Err(ParseNucError(value))
        }
    }

    /// Parses a nucleotide from a single-character text token,
    /// case-insensitively.
    ///
    /// Succeeds exactly on the one-character tokens whose character
    /// denotes a nucleotide; any other token is rejected with an error
    /// carrying the token normalized to uppercase.
    pub fn from_str(s: &str) -> (r: Result<Nuc, ParseNucError<String>>)
        ensures
            r is Ok <==> s@.len() == 1 && nuc_of_char(s@[0]) is Some,
            r matches Ok(n) ==> nuc_of_char(s@[0]) == Some(n),
            r matches Err(e) ==> e.0@ == upper_seq(s@),
    {
        if s.unicode_len() == 1 {
            let c = s.get_char(0);
            match Self::try_from(c) {
                Ok(n) => {
                    return Ok(n);
                },
                Err(_) => {},
            }
        }
        Err(ParseNucError(ascii_uppercase(s)))
    }
}

/// Whether every character of a text denotes a nucleotide.
pub open spec fn all_valid(s: Seq<char>) -> bool {
    forall|i: int| 0 <= i < s.len() ==> #[trigger] nuc_of_char(s[i]) is Some
}

/// The nucleotides denoted by a fully valid text, in order.
pub open spec fn nucs_of_text(s: Seq<char>) -> Seq<Nuc> {
    Seq::new(s.len(), |i: int| nuc_of_char(s[i]).unwrap())
}

/// Whether a left-to-right scan of a text fails exactly at position `i`:
/// the character there denotes no nucleotide and every one before it does.
/// At most one position of a text satisfies this.
pub open spec fn fails_at(s: Seq<char>, i: int) -> bool {
    &&& 0 <= i < s.len()
    &&& nuc_of_char(s[i]) is None
    &&& forall|j: int| 0 <= j < i ==> #[trigger] nuc_of_char(s[j]) is Some
}

/// The uppercase text of a run of nucleotides.
pub open spec fn text_of(ns: Seq<Nuc>) -> Seq<char> {
    Seq::new(ns.len(), |i: int| char_of_nuc(ns[i]))
}

/// ASCII uppercase of one character: the lowercase ASCII letters shift
/// down by 32 code points, every other character stays as it is.
pub open spec fn upper_char(c: char) -> char {
    if ('a' as u32) <= (c as u32) && (c as u32) <= ('z' as u32) {
        ((((c as u32) - 32) as u32) as char)
    } else {
        c
    }
}

/// A text with each character ASCII-uppercased.
pub open spec fn upper_seq(s: Seq<char>) -> Seq<char> {
    Seq::new(s.len(), |i: int| upper_char(s[i]))
}

/// Uppercasing a character that denotes a nucleotide gives the uppercase
/// letter of that nucleotide.
proof fn lemma_upper_of_valid(c: char)
    requires
        nuc_of_char(c) is Some,
    ensures
        upper_char(c) == char_of_nuc(nuc_of_char(c).unwrap()),
{
    if c == 'a' {
        vstd::utf8::char_u32_cast('A', ('a' as u32 - 32) as u32);
    } else if c == 'c' {
        vstd::utf8::char_u32_cast('C', ('c' as u32 - 32) as u32);
    } else if c == 'g' {
        vstd::utf8::char_u32_cast('G', ('g' as u32 - 32) as u32);
    } else if c == 't' {
        vstd::utf8::char_u32_cast('T', ('t' as u32 - 32) as u32);
    }
}

/// Round-trip of the code table: decoding the code of a nucleotide gives
/// the nucleotide back, so the mapping is bijective over codes 0 through 3.
pub proof fn lemma_code_bijective(n: Nuc)
    ensures
        nuc_of_code(code_of(n)) == n,
        code_of(n) < 4,
{
}

/// The other direction of the bijection: encoding the nucleotide denoted
/// by a 2-bit code gives the code back.
pub proof fn lemma_code_bijective_inv(c: u8)
    requires
        c < 4,
    ensures
        code_of(nuc_of_code(c)) == c,
{
}

/// Round-trip law: the uppercase text of the nucleotides parsed from a
/// fully valid text is that text, uppercased.
pub proof fn lemma_round_trip(s: Seq<char>)
    requires
        all_valid(s),
    ensures
        text_of(nucs_of_text(s)) == upper_seq(s),
{
    assert forall|i: int| 0 <= i < s.len() implies
        char_of_nuc(nucs_of_text(s)[i]) == upper_char(s[i]) by {
        lemma_upper_of_valid(s[i]);
    }
    assert(text_of(nucs_of_text(s)) =~= upper_seq(s));
}

/// Length preservation: a fully valid text parses to exactly one
/// nucleotide per character.
pub proof fn lemma_length_preserved(s: Seq<char>)
    requires
        all_valid(s),
    ensures
        nucs_of_text(s).len() == s.len(),
{
}

/// Equivalence of the construction paths: a run of nucleotides obtained by
/// parsing a fully valid text character by character is the run that the
/// text itself parses to, so building from the text and building from the
/// typed run give the same contents at every position.
pub proof fn lemma_construction_paths(s: Seq<char>, ns: Seq<Nuc>)
    requires
        all_valid(s),
        ns.len() == s.len(),
        forall|i: int| 0 <= i < s.len() ==> Some(ns[i]) == #[trigger] nuc_of_char(s[i]),
    ensures
        ns == nucs_of_text(s),
{
    assert(ns =~= nucs_of_text(s));
}

/// A scan can fail at no more than one position: the first invalid
/// character is uniquely determined.
pub proof fn lemma_fails_at_unique(s: Seq<char>, i: int, j: int)
    requires
        fails_at(s, i),
        fails_at(s, j),
    ensures
        i == j,
{
}

} // verus!
