//! The content digest used for transaction and block hashes, and the decimal
//! rendering of the numeric fields that enter a digest's payload.

use vstd::prelude::*;

verus! {

/// What sha2's SHA-256 returns for a given string; a fixed function of the
/// input alone.
pub uninterp spec fn sha256_of(data: Seq<char>) -> Seq<u8>;

/// Relies on sha2::Sha256: the digest is 32 bytes long and depends on the
/// hashed bytes — here the UTF-8 bytes of `data` — alone.
#[verifier::external_body]
pub(crate) fn sha256(data: &str) -> (r: Vec<u8>)
    ensures
        r@ == sha256_of(data@),
        r@.len() == 32,
{
    let mut hasher = <sha2::Sha256 as sha2::Digest>::new();
    sha2::Digest::update(&mut hasher, data.as_bytes());
    sha2::Digest::finalize(hasher).to_vec()
}

/// The decimal digit for a value below ten.
pub open spec fn dec_digit(v: u8) -> char
    recommends
        v < 10,
{
    crate::hexcode::hex_digit(v)
}

/// The decimal rendering of a natural number, most significant digit first,
/// without leading zeros (a single zero for zero itself).
pub open spec fn dec_of(n: nat) -> Seq<char>
    decreases n,
{
    if n < 10 {
        seq![dec_digit(n as u8)]
    } else {
        dec_of(n / 10) + seq![dec_digit((n % 10) as u8)]
    }
}

/// The characters of a digit stack read most significant first: position `i`
/// holds the digit stored at position `len - 1 - i`.
spec fn digit_stack_chars(d: Seq<u64>) -> Seq<char> {
    Seq::new(d.len(), |i: int| dec_digit((d[d.len() - 1 - i] % 10) as u8))
}

fn push_digit(s: &mut String, d: u64)
    requires
        d < 10,
    ensures
        final(s)@ == old(s)@ + seq![dec_digit(d as u8)],
{
    proof {
        reveal_strlit("0");
        reveal_strlit("1");
        reveal_strlit("2");
        reveal_strlit("3");
        reveal_strlit("4");
        reveal_strlit("5");
        reveal_strlit("6");
        reveal_strlit("7");
        reveal_strlit("8");
        reveal_strlit("9");
        assert(("0")@ =~= seq!['0']);
        assert(("1")@ =~= seq!['1']);
        assert(("2")@ =~= seq!['2']);
        assert(("3")@ =~= seq!['3']);
        assert(("4")@ =~= seq!['4']);
        assert(("5")@ =~= seq!['5']);
        assert(("6")@ =~= seq!['6']);
        assert(("7")@ =~= seq!['7']);
        assert(("8")@ =~= seq!['8']);
        assert(("9")@ =~= seq!['9']);
    }
    if d == 0 {
        s.append("0");
    } else if d == 1 {
        s.append("1");
    } else if d == 2 {
        s.append("2");
    } else if d == 3 {
        s.append("3");
    } else if d == 4 {
        s.append("4");
    } else if d == 5 {
        s.append("5");
    } else if d == 6 {
        s.append("6");
    } else if d == 7 {
        s.append("7");
    } else if d == 8 {
        s.append("8");
    } else {
        s.append("9");
    }
}

/// Renders a value in decimal, by collecting its digits least significant
/// first and then emitting them in reverse.
pub(crate) fn u64_to_dec(n: u64) -> (r: String)
    ensures
        r@ == dec_of(n as nat),
{
    let mut digits: Vec<u64> = Vec::new();
    digits.push(n % 10);
    let mut m: u64 = n / 10;
    proof {
        assert(digit_stack_chars(digits@) =~= seq![dec_digit((n % 10) as u8)]);
        if n < 10 {
            assert(dec_of(n as nat) == seq![dec_digit((n % 10) as u8)]);
        }
    }
    while m > 0
        invariant
            forall|j: int| 0 <= j < digits@.len() ==> digits@[j] < 10,
            digits@.len() >= 1,
            dec_of(n as nat) == if m > 0 {
                dec_of(m as nat) + digit_stack_chars(digits@)
            } else {
                digit_stack_chars(digits@)
            },
        decreases m,
    {
        let ghost pre = digits@;
        digits.push(m % 10);
        let next = m / 10;
        proof {
            assert(digit_stack_chars(digits@) =~= seq![dec_digit((m % 10) as u8)]
                + digit_stack_chars(pre));
            if m < 10 {
                assert(dec_of(m as nat) == seq![dec_digit((m % 10) as u8)]);
            } else {
                assert(dec_of(m as nat) == dec_of((m / 10) as nat) + seq![
                    dec_digit((m % 10) as u8),
                ]);
            }
            assert(dec_of(n as nat) =~= if next > 0 {
                dec_of(next as nat) + digit_stack_chars(digits@)
            } else {
                digit_stack_chars(digits@)
            });
        }
        m = next;
    }
    let mut s = String::new();
    let total = digits.len();
    let mut i: usize = total;
    while i > 0
        invariant
            total == digits@.len(),
            0 <= i <= total,
            forall|j: int| 0 <= j < digits@.len() ==> digits@[j] < 10,
            s@ == digit_stack_chars(digits@).take(total - i),
        decreases i,
    {
        i -= 1;
        push_digit(&mut s, digits[i]);
        proof {
            assert(digit_stack_chars(digits@).take(total - i) =~= digit_stack_chars(
                digits@,
            ).take(total - i - 1).push(dec_digit((digits@[i as int] % 10) as u8)));
        }
    }
    proof {
        assert(digit_stack_chars(digits@).take(total as int) =~= digit_stack_chars(digits@));
    }
    s
}

} // verus!
