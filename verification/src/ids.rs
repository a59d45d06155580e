//! Item identifiers: parsing them out of store file names and printing them
//! back into output file names and renderer URLs.
//!
//! A metadata entry is named `<64 hex digits>.json`; the item id is the value
//! of the last 32 hex digits. An output file is named `<decimal id><ext>`.

use vstd::prelude::*;

verus! {

/// Startup-fatal error: a store file name that matches the naming convention
/// holds an identifier that does not parse.
#[derive(Clone, Copy, Debug, PartialEq, Eq, Structural)]
pub enum IdError {
    MalformedIdentifier,
}

/// `pat` occurs in `s` starting at index `i`.
pub open spec fn occurs_at(s: Seq<u8>, pat: Seq<u8>, i: int) -> bool {
    0 <= i && i + pat.len() <= s.len() && s.subrange(i, i + pat.len()) == pat
}

/// Index of the first occurrence of `pat` in `s`, if any.
pub fn find_first(s: &Vec<u8>, pat: &Vec<u8>) -> (r: Option<usize>)
    requires
        pat@.len() >= 1,
    ensures
        match r {
            Some(i) => occurs_at(s@, pat@, i as int)
                && forall|j: int| 0 <= j < i ==> !occurs_at(s@, pat@, j),
            None => forall|j: int| !occurs_at(s@, pat@, j),
        },
{
    if s.len() < pat.len() {
        return None;
    }
    let mut i: usize = 0;
    while i <= s.len() - pat.len()
        invariant
            s@.len() >= pat@.len() >= 1,
            i <= s@.len() - pat@.len() + 1,
            forall|j: int| 0 <= j < i ==> !occurs_at(s@, pat@, j),
        decreases s@.len() - pat@.len() - i + 1,
    {
        let mut k: usize = 0;
        let mut matches: bool = true;
        while k < pat.len()
            invariant
                s@.len() >= pat@.len() >= 1,
                s@.len() <= usize::MAX,
                i + pat@.len() <= s@.len(),
                k <= pat@.len(),
                matches ==> forall|m: int| 0 <= m < k ==> s@[i + m] == pat@[m],
                !matches ==> exists|m: int| 0 <= m < k && s@[i + m] != pat@[m],
            decreases pat@.len() - k,
        {
            if s[i + k] != pat[k] {
                matches = false;
            }
            k = k + 1;
        }
        if matches {
            proof {
                assert(s@.subrange(i as int, i + pat@.len()) =~= pat@);
            }
            return Some(i);
        }
        proof {
            let m = choose|m: int| 0 <= m < pat@.len() && s@[i + m] != pat@[m];
            assert(!occurs_at(s@, pat@, i as int)) by {
                assert(s@.subrange(i as int, i + pat@.len())[m] == s@[i + m]);
            }
        }
        i = i + 1;
    }
    None
}

pub open spec fn is_hex_digit(b: u8) -> bool {
    (48 <= b <= 57) || (65 <= b <= 70) || (97 <= b <= 102)
}

pub open spec fn hex_digit_value(b: u8) -> nat {
    if 48 <= b <= 57 {
        (b - 48) as nat
    } else if 65 <= b <= 70 {
        (b - 55) as nat
    } else {
        (b - 87) as nat
    }
}

pub open spec fn all_hex_digits(s: Seq<u8>) -> bool {
    forall|i: int| 0 <= i < s.len() ==> is_hex_digit(#[trigger] s[i])
}

/// Value of a big-endian string of hex digits.
pub open spec fn hex_value(s: Seq<u8>) -> nat
    decreases s.len(),
{
    if s.len() == 0 {
        0
    } else {
        hex_value(s.drop_last()) * 16 + hex_digit_value(s.last())
    }
}

pub open spec fn pow16(k: nat) -> nat
    decreases k,
{
    if k == 0 {
        1
    } else {
        16 * pow16((k - 1) as nat)
    }
}

pub proof fn lemma_pow16_pos(k: nat)
    ensures
        pow16(k) >= 1,
    decreases k,
{
    if k > 0 {
        lemma_pow16_pos((k - 1) as nat);
    }
}

pub proof fn lemma_pow16_mono(j: nat, k: nat)
    requires
        j <= k,
    ensures
        pow16(j) <= pow16(k),
    decreases k,
{
    if j < k {
        lemma_pow16_mono(j, (k - 1) as nat);
        lemma_pow16_pos((k - 1) as nat);
        assert(pow16(k) == 16 * pow16((k - 1) as nat));
    }
}

pub proof fn lemma_pow16_32()
    ensures
        pow16(32) == 0x1_0000_0000_0000_0000_0000_0000_0000_0000nat,
{
    reveal_with_fuel(pow16, 33);
}

pub proof fn lemma_hex_value_bound(s: Seq<u8>)
    requires
        all_hex_digits(s),
    ensures
        hex_value(s) < pow16(s.len()),
    decreases s.len(),
{
    if s.len() > 0 {
        assert(all_hex_digits(s.drop_last())) by {
            assert(forall|i: int| 0 <= i < s.len() - 1
                ==> #[trigger] s.drop_last()[i] == s[i]);
        }
        lemma_hex_value_bound(s.drop_last());
        lemma_pow16_pos((s.len() - 1) as nat);
        assert(is_hex_digit(s.last()));
        assert(hex_digit_value(s.last()) < 16);
    }
}

/// Parse the 32 hex digits at `s[start .. start + 32]` as one item id.
/// 32 hex digits hold exactly 128 bits, so the value always fits.
pub fn parse_hex32(s: &Vec<u8>, start: usize) -> (r: Result<u128, IdError>)
    requires
        start + 32 <= s@.len(),
    ensures
        match r {
            Ok(v) => all_hex_digits(s@.subrange(start as int, start + 32))
                && v == hex_value(s@.subrange(start as int, start + 32)),
            Err(_) => !all_hex_digits(s@.subrange(start as int, start + 32)),
        },
{
    let slen = s.len();
    let mut acc: u128 = 0;
    let mut i: usize = 0;
    proof {
        assert(s@.subrange(start as int, start as int) =~= Seq::<u8>::empty());
    }
    while i < 32
        invariant
            start + 32 <= slen == s@.len(),
            i <= 32,
            all_hex_digits(s@.subrange(start as int, start + i)),
            acc == hex_value(s@.subrange(start as int, start + i)),
        decreases 32 - i,
    {
        let b = s[start + i];
        let d: u8 = if 48 <= b && b <= 57 {
            b - 48
        } else if 65 <= b && b <= 70 {
            b - 55
        } else if 97 <= b && b <= 102 {
            b - 87
        } else {
            proof {
                assert(s@.subrange(start as int, start + 32)[i as int] == s@[start + i]);
            }
            return Err(IdError::MalformedIdentifier);
        };
        let ghost pre = s@.subrange(start as int, start + i);
        proof {
            assert(s@.subrange(start as int, start + i + 1) =~= pre.push(s@[start + i]));
            assert(pre.push(s@[start + i]).drop_last() =~= pre);
            lemma_hex_value_bound(pre.push(s@[start + i]));
            lemma_pow16_mono((i + 1) as nat, 32);
            lemma_pow16_32();
        }
        acc = acc * 16 + (d as u128);
        i = i + 1;
    }
    proof {
        assert(s@.subrange(start as int, start + 32) =~= s@.subrange(start as int, start + i));
    }
    Ok(acc)
}

pub open spec fn is_dec_digit(b: u8) -> bool {
    48 <= b <= 57
}

pub open spec fn all_dec_digits(s: Seq<u8>) -> bool {
    forall|i: int| 0 <= i < s.len() ==> is_dec_digit(#[trigger] s[i])
}

/// Value of a big-endian string of decimal digits.
pub open spec fn dec_value(s: Seq<u8>) -> nat
    decreases s.len(),
{
    if s.len() == 0 {
        0
    } else {
        dec_value(s.drop_last()) * 10 + (s.last() - 48) as nat
    }
}

/// The decimal digits of `n`, most significant first, with no leading zero
/// except for `n == 0` itself.
pub open spec fn dec_digits(n: nat) -> Seq<u8>
    decreases n,
{
    if n < 10 {
        seq![(n + 48) as u8]
    } else {
        dec_digits(n / 10).push((n % 10 + 48) as u8)
    }
}

/// A shorter all-digit prefix never exceeds the value of the whole string.
pub proof fn lemma_dec_value_prefix(s: Seq<u8>, j: int)
    requires
        0 <= j <= s.len(),
    ensures
        dec_value(s.take(j)) <= dec_value(s),
    decreases s.len(),
{
    if j < s.len() {
        lemma_dec_value_prefix(s.drop_last(), j);
        assert(s.drop_last().take(j) =~= s.take(j));
    } else {
        assert(s.take(j) =~= s);
    }
}

/// Parse `s[0 .. end]` as a decimal integer; `None` when it is empty, holds a
/// non-digit, or its value does not fit in 128 bits.
pub fn parse_decimal(s: &Vec<u8>, end: usize) -> (r: Option<u128>)
    requires
        end <= s@.len(),
    ensures
        match r {
            Some(v) => end >= 1 && all_dec_digits(s@.take(end as int))
                && v == dec_value(s@.take(end as int)),
            None => end == 0 || !all_dec_digits(s@.take(end as int))
                || dec_value(s@.take(end as int)) > u128::MAX,
        },
{
    if end == 0 {
        return None;
    }
    let slen = s.len();
    let mut acc: u128 = 0;
    let mut i: usize = 0;
    proof {
        assert(s@.take(0) =~= Seq::<u8>::empty());
    }
    while i < end
        invariant
            1 <= end <= slen == s@.len(),
            i <= end,
            all_dec_digits(s@.take(i as int)),
            acc == dec_value(s@.take(i as int)),
        decreases end - i,
    {
        let b = s[i];
        if !(48 <= b && b <= 57) {
            proof {
                assert(s@.take(end as int)[i as int] == s@[i as int]);
            }
            return None;
        }
        let d: u8 = b - 48;
        let ghost pre = s@.take(i as int);
        proof {
            assert(s@.take(i + 1) =~= pre.push(s@[i as int]));
            assert(pre.push(s@[i as int]).drop_last() =~= pre);
        }
        let step = match acc.checked_mul(10) {
            Some(x) => x.checked_add(d as u128),
            None => None,
        };
        match step {
            Some(x) => {
                acc = x;
            },
            None => {
                proof {
                    lemma_dec_value_prefix(s@.take(end as int), i + 1);
                    assert(s@.take(end as int).take(i + 1) =~= s@.take(i + 1));
                }
                return None;
            },
        }
        i = i + 1;
    }
    proof {
        assert(s@.take(end as int) =~= s@.take(i as int));
    }
    Some(acc)
}

/// Print `n` in decimal.
pub fn decimal_digits(n: u128) -> (r: Vec<u8>)
    ensures
        r@ == dec_digits(n as nat),
{
    let mut rev: Vec<u8> = Vec::new();
    let mut cur: u128 = n;
    while cur >= 10
        invariant
            dec_digits(n as nat) == dec_digits(cur as nat) + rev@.reverse(),
        decreases cur,
    {
        let ghost old_rev = rev@;
        rev.push((cur % 10) as u8 + 48);
        proof {
            assert(rev@.reverse() =~= seq![(cur as nat % 10 + 48) as u8] + old_rev.reverse());
            assert(dec_digits(cur as nat / 10) + rev@.reverse()
                =~= dec_digits(cur as nat) + old_rev.reverse());
        }
        cur = cur / 10;
    }
    let ghost old_rev = rev@;
    rev.push(cur as u8 + 48);
    proof {
        assert(rev@.reverse() =~= seq![(cur as nat + 48) as u8] + old_rev.reverse());
        assert(dec_digits(cur as nat) + old_rev.reverse() =~= rev@.reverse());
    }
    let mut out: Vec<u8> = Vec::new();
    let mut j: usize = rev.len();
    while j > 0
        invariant
            j <= rev@.len(),
            out@ =~= rev@.reverse().take(rev@.len() - j),
        decreases j,
    {
        j = j - 1;
        out.push(rev[j]);
        proof {
            assert(out@ =~= rev@.reverse().take(rev@.len() - j));
        }
    }
    proof {
        assert(rev@.reverse().take(rev@.len() as int) =~= rev@.reverse());
    }
    out
}

pub open spec fn first_occurrence_at(s: Seq<u8>, pat: Seq<u8>, i: int) -> bool {
    occurs_at(s, pat, i) && forall|j: int| 0 <= j < i ==> !occurs_at(s, pat, j)
}

pub open spec fn no_occurrence(s: Seq<u8>, pat: Seq<u8>) -> bool {
    forall|j: int| !occurs_at(s, pat, j)
}

/// The bytes of `".json"`, the suffix that marks a metadata entry.
pub open spec fn json_suffix() -> Seq<u8> {
    seq![46u8, 106u8, 115u8, 111u8, 110u8]
}

fn json_pattern() -> (p: Vec<u8>)
    ensures
        p@ == json_suffix(),
{
    let mut p: Vec<u8> = Vec::new();
    p.push(46);
    p.push(106);
    p.push(115);
    p.push(111);
    p.push(110);
    proof {
        assert(p@ =~= json_suffix());
    }
    p
}

/// Extract the item id from a metadata entry's file name.
///
/// A name is a candidate when it holds `".json"` and exactly 64 bytes stand
/// before its first occurrence; the id is the value of hex digits 32..64.
/// `Ok(None)` skips a non-candidate; a candidate whose digits are not hex is
/// the fatal `MalformedIdentifier`.
pub fn item_id_from_metadata_name(name: &Vec<u8>) -> (r: Result<Option<u128>, IdError>)
    ensures
        ({
            let s = name@;
            let pat = json_suffix();
            match r {
                Ok(Some(v)) => first_occurrence_at(s, pat, 64)
                    && all_hex_digits(s.subrange(32, 64))
                    && v == hex_value(s.subrange(32, 64)),
                Ok(None) => no_occurrence(s, pat)
                    || exists|i: int| #[trigger] first_occurrence_at(s, pat, i) && i != 64,
                Err(e) => first_occurrence_at(s, pat, 64)
                    && !all_hex_digits(s.subrange(32, 64))
                    && e == IdError::MalformedIdentifier,
            }
        }),
{
    let pat = json_pattern();
    match find_first(name, &pat) {
        None => Ok(None),
        Some(i) => {
            if i != 64 {
                proof {
                    assert(first_occurrence_at(name@, json_suffix(), i as int));
                }
                Ok(None)
            } else {
                match parse_hex32(name, 32) {
                    Ok(v) => Ok(Some(v)),
                    Err(e) => Err(e),
                }
            }
        },
    }
}

/// Extract the item id from an output file's name, `<decimal id><ext>`.
///
/// `Ok(None)` skips a name without the configured extension; a name whose
/// stem before the extension's first occurrence is not a decimal number that
/// fits 128 bits is the fatal `MalformedIdentifier`.
pub fn item_id_from_output_name(name: &Vec<u8>, ext: &Vec<u8>) -> (r: Result<
    Option<u128>,
    IdError,
>)
    requires
        ext@.len() >= 1,
    ensures
        ({
            let s = name@;
            match r {
                Ok(Some(v)) => exists|i: int|
                    #[trigger] first_occurrence_at(s, ext@, i) && i >= 1
                        && all_dec_digits(s.take(i)) && v == dec_value(s.take(i)),
                Ok(None) => no_occurrence(s, ext@),
                Err(e) => (exists|i: int|
                    #[trigger] first_occurrence_at(s, ext@, i) && (i == 0 || !all_dec_digits(
                        s.take(i),
                    ) || dec_value(s.take(i)) > u128::MAX)) && e == IdError::MalformedIdentifier,
            }
        }),
{
    match find_first(name, ext) {
        None => Ok(None),
        Some(i) => {
            proof {
                assert(first_occurrence_at(name@, ext@, i as int));
            }
            match parse_decimal(name, i) {
                Some(v) => Ok(Some(v)),
                None => Err(IdError::MalformedIdentifier),
            }
        },
    }
}

/// The output store file name for an item: its decimal id, then the codec's
/// extension.
pub fn output_name(id: u128, ext: &Vec<u8>) -> (r: Vec<u8>)
    ensures
        r@ == dec_digits(id as nat) + ext@,
{
    let mut out = decimal_digits(id);
    let mut k: usize = 0;
    while k < ext.len()
        invariant
            k <= ext@.len(),
            out@ == dec_digits(id as nat) + ext@.take(k as int),
        decreases ext@.len() - k,
    {
        out.push(ext[k]);
        proof {
            assert(dec_digits(id as nat) + ext@.take(k + 1)
                =~= (dec_digits(id as nat) + ext@.take(k as int)).push(ext@[k as int]));
        }
        k = k + 1;
    }
    proof {
        assert(ext@.take(ext@.len() as int) =~= ext@);
    }
    out
}

/// The renderer URL for an item: a fixed prefix, the decimal id, a fixed
/// suffix (`<prefix><id><suffix>`).
pub fn card_url(prefix: &Vec<u8>, id: u128, suffix: &Vec<u8>) -> (r: Vec<u8>)
    ensures
        r@ == prefix@ + dec_digits(id as nat) + suffix@,
{
    let digits = decimal_digits(id);
    let mut out: Vec<u8> = Vec::new();
    let mut k: usize = 0;
    while k < prefix.len()
        invariant
            k <= prefix@.len(),
            out@ == prefix@.take(k as int),
        decreases prefix@.len() - k,
    {
        out.push(prefix[k]);
        proof {
            assert(prefix@.take(k + 1) =~= prefix@.take(k as int).push(prefix@[k as int]));
        }
        k = k + 1;
    }
    proof {
        assert(prefix@.take(prefix@.len() as int) =~= prefix@);
    }
    let mut k: usize = 0;
    while k < digits.len()
        invariant
            k <= digits@.len(),
            digits@ == dec_digits(id as nat),
            out@ == prefix@ + digits@.take(k as int),
        decreases digits@.len() - k,
    {
        out.push(digits[k]);
        proof {
            assert(prefix@ + digits@.take(k + 1)
                =~= (prefix@ + digits@.take(k as int)).push(digits@[k as int]));
        }
        k = k + 1;
    }
    proof {
        assert(digits@.take(digits@.len() as int) =~= digits@);
    }
    let mut k: usize = 0;
    while k < suffix.len()
        invariant
            k <= suffix@.len(),
            out@ == prefix@ + dec_digits(id as nat) + suffix@.take(k as int),
        decreases suffix@.len() - k,
    {
        out.push(suffix[k]);
        proof {
            assert(prefix@ + dec_digits(id as nat) + suffix@.take(k + 1)
                =~= (prefix@ + dec_digits(id as nat) + suffix@.take(k as int)).push(
                suffix@[k as int]));
        }
        k = k + 1;
    }
    proof {
        assert(suffix@.take(suffix@.len() as int) =~= suffix@);
    }
    out
}

/// `dec_digits` prints what `dec_value` reads back: printing is injective.
pub proof fn lemma_dec_round_trip(n: nat)
    ensures
        dec_digits(n).len() >= 1,
        all_dec_digits(dec_digits(n)),
        dec_value(dec_digits(n)) == n,
    decreases n,
{
    if n < 10 {
        let s1 = seq![(n + 48) as u8];
        assert(dec_digits(n) == s1);
        assert(s1.last() == (n + 48) as u8);
        assert(s1.drop_last() =~= Seq::<u8>::empty());
        assert(dec_value(s1) == dec_value(s1.drop_last()) * 10 + (s1.last() - 48) as nat);
        assert(dec_value(s1) == n);
    } else {
        lemma_dec_round_trip(n / 10);
        assert(dec_digits(n).drop_last() =~= dec_digits(n / 10));
    }
}

/// A written output name scans back to the id it was written for: the store
/// file `output_name(id, ext)` contributes exactly `id` to the actual set,
/// as long as the extension does not begin with a digit.
pub proof fn lemma_output_name_round_trip(id: u128, ext: Seq<u8>)
    requires
        ext.len() >= 1,
        !is_dec_digit(ext[0]),
    ensures
        ({
            let name = dec_digits(id as nat) + ext;
            let stem_len = dec_digits(id as nat).len() as int;
            first_occurrence_at(name, ext, stem_len)
                && stem_len >= 1
                && all_dec_digits(name.take(stem_len))
                && dec_value(name.take(stem_len)) == id
        }),
{
    let name = dec_digits(id as nat) + ext;
    let stem_len = dec_digits(id as nat).len() as int;
    lemma_dec_round_trip(id as nat);
    assert(name.take(stem_len) =~= dec_digits(id as nat));
    assert(occurs_at(name, ext, stem_len)) by {
        assert(name.subrange(stem_len, stem_len + ext.len()) =~= ext);
    }
    assert forall|j: int| 0 <= j < stem_len implies !occurs_at(name, ext, j) by {
        if occurs_at(name, ext, j) {
            assert(name.subrange(j, j + ext.len())[0] == name[j]);
            assert(name[j] == dec_digits(id as nat)[j]);
            assert(is_dec_digit(name[j]));
        }
    }
}

} // verus!
