//! Display formatting: decimal rendering, zero padding, thousands
//! grouping, date strings and the localized month-name table. Numbers
//! are rendered as ASCII bytes by verified code; only the final
//! bytes-to-string step leans on the standard library.
use vstd::prelude::*;

use crate::domain::Date;

verus! {

/// The ASCII bytes of a sequence, read one byte per character.
pub open spec fn ascii_chars(s: Seq<u8>) -> Seq<char> {
    Seq::new(s.len(), |i: int| s[i] as char)
}

/// Decimal digits of `n`, most significant first, as ASCII bytes.
pub open spec fn spec_digits(n: nat) -> Seq<u8>
    decreases n,
{
    if n < 10 {
        seq![(48 + n) as u8]
    } else {
        spec_digits(n / 10).push((48 + n % 10) as u8)
    }
}

/// `k` ASCII zeros.
pub open spec fn spec_zeros(k: nat) -> Seq<u8>
    decreases k,
{
    if k == 0 {
        Seq::empty()
    } else {
        spec_zeros((k - 1) as nat).push(48u8)
    }
}

/// `n` in decimal, left-padded with zeros to at least `w` bytes.
pub open spec fn spec_padded(n: nat, w: nat) -> Seq<u8> {
    if spec_digits(n).len() >= w {
        spec_digits(n)
    } else {
        spec_zeros((w - spec_digits(n).len()) as nat) + spec_digits(n)
    }
}

/// The first `i` bytes of `s` with a space before every position from
/// which a multiple of three bytes remains (the thousands rule, applied
/// to the whole rendering, sign included).
pub open spec fn spec_grouped_prefix(s: Seq<u8>, i: int) -> Seq<u8>
    decreases i,
{
    if i <= 0 {
        Seq::empty()
    } else {
        spec_grouped_prefix(s, i - 1) + (if (s.len() - (i - 1)) % 3 == 0 && i - 1 != 0 {
            seq![32u8]
        } else {
            Seq::empty()
        }) + seq![s[i - 1]]
    }
}

/// `s` with spaces as thousands separators.
pub open spec fn spec_grouped(s: Seq<u8>) -> Seq<u8> {
    spec_grouped_prefix(s, s.len() as int)
}

/// The signed decimal rendering of `n`.
pub open spec fn spec_signed_digits(n: int) -> Seq<u8> {
    if n < 0 {
        seq![45u8] + spec_digits((-n) as nat)
    } else {
        spec_digits(n as nat)
    }
}

/// A number as it is displayed: decimal, space-grouped.
pub open spec fn spec_format_number(n: nat) -> Seq<char> {
    ascii_chars(spec_grouped(spec_digits(n)))
}

/// A signed number as it is displayed.
pub open spec fn spec_format_signed(n: int) -> Seq<char> {
    ascii_chars(spec_grouped(spec_signed_digits(n)))
}

/// A date as `YYYY-MM-DD`.
pub open spec fn spec_date_str(d: Date) -> Seq<char> {
    ascii_chars(
        spec_padded(d.year as nat, 4) + seq![45u8] + spec_padded(d.month as nat, 2) + seq![45u8]
            + spec_padded(d.day as nat, 2),
    )
}

/// Every decimal digit byte lies in the ASCII digit range.
pub proof fn lemma_digits_ascii(n: nat)
    ensures
        spec_digits(n).len() >= 1,
        forall|i: int| 0 <= i < spec_digits(n).len() ==> 48 <= #[trigger] spec_digits(n)[i] <= 57,
    decreases n,
{
    if n >= 10 {
        lemma_digits_ascii(n / 10);
    }
}

/// Zero padding is made of ASCII zeros.
pub proof fn lemma_zeros_ascii(k: nat)
    ensures
        spec_zeros(k).len() == k,
        forall|i: int| 0 <= i < k ==> #[trigger] spec_zeros(k)[i] == 48u8,
    decreases k,
{
    if k > 0 {
        lemma_zeros_ascii((k - 1) as nat);
    }
}

/// Grouping inserts only spaces: every byte of the result is a byte of
/// `s` or an ASCII space.
pub proof fn lemma_grouped_prefix_ascii(s: Seq<u8>, i: int)
    requires
        forall|j: int| 0 <= j < s.len() ==> #[trigger] s[j] < 128,
        i <= s.len(),
    ensures
        forall|j: int|
            0 <= j < spec_grouped_prefix(s, i).len() ==> #[trigger] spec_grouped_prefix(s, i)[j]
                < 128,
    decreases i,
{
    if i > 0 {
        lemma_grouped_prefix_ascii(s, i - 1);
        let pre = spec_grouped_prefix(s, i - 1);
        let sep: Seq<u8> = if (s.len() - (i - 1)) % 3 == 0 && i - 1 != 0 {
            seq![32u8]
        } else {
            Seq::empty()
        };
        let cur = spec_grouped_prefix(s, i);
        assert(cur == pre + sep + seq![s[i - 1]]);
        assert forall|j: int| 0 <= j < cur.len() implies cur[j] < 128 by {
            if j < pre.len() {
                assert(cur[j] == pre[j]);
            } else if j < pre.len() + sep.len() {
                assert(cur[j] == 32u8);
            } else {
                assert(cur[j] == s[i - 1]);
            }
        }
    }
}

/// Appends the decimal digits of `n`.
pub fn push_digits(n: u64, out: &mut Vec<u8>)
    ensures
        final(out)@ == old(out)@ + spec_digits(n as nat),
    decreases n,
{
    if n >= 10 {
        push_digits(n / 10, out);
        out.push((n % 10) as u8 + 48);
        proof {
            assert(final(out)@ =~= old(out)@ + spec_digits(n as nat));
        }
    } else {
        out.push(n as u8 + 48);
        proof {
            assert(final(out)@ =~= old(out)@ + spec_digits(n as nat));
        }
    }
}

/// Appends `n` in decimal, zero-padded to at least `width` bytes.
#[verifier::loop_isolation(false)]
pub fn push_padded(n: u64, width: usize, out: &mut Vec<u8>)
    ensures
        final(out)@ == old(out)@ + spec_padded(n as nat, width as nat),
{
    let mut digits: Vec<u8> = Vec::new();
    push_digits(n, &mut digits);
    proof {
        assert(digits@ =~= spec_digits(n as nat));
    }
    let mut k: usize = 0;
    let pad: usize = if digits.len() < width {
        width - digits.len()
    } else {
        0
    };
    while k < pad
        invariant
            k <= pad,
            out@ == old(out)@ + spec_zeros(k as nat),
        decreases pad - k,
    {
        out.push(48);
        proof {
            assert(out@ =~= old(out)@ + spec_zeros((k + 1) as nat));
        }
        k = k + 1;
    }
    let mut j: usize = 0;
    while j < digits.len()
        invariant
            j <= digits@.len(),
            out@ == old(out)@ + spec_zeros(pad as nat) + digits@.take(j as int),
        decreases digits@.len() - j,
    {
        let b = digits[j];
        out.push(b);
        proof {
            assert(out@ =~= old(out)@ + spec_zeros(pad as nat) + digits@.take(j + 1 as int));
        }
        j = j + 1;
    }
    proof {
        assert(digits@.take(digits@.len() as int) =~= digits@);
        if spec_digits(n as nat).len() >= width as nat {
            assert(spec_zeros(0) =~= Seq::<u8>::empty());
            assert(out@ =~= old(out)@ + spec_padded(n as nat, width as nat));
        } else {
            assert(out@ =~= old(out)@ + spec_padded(n as nat, width as nat));
        }
    }
}

/// Inserts spaces as thousands separators, sign included, exactly as
/// the metric tiles display numbers.
#[verifier::loop_isolation(false)]
pub fn group_bytes(s: &Vec<u8>) -> (r: Vec<u8>)
    ensures
        r@ == spec_grouped(s@),
{
    let mut out: Vec<u8> = Vec::new();
    let n = s.len();
    let mut i: usize = 0;
    while i < n
        invariant
            i <= n,
            n == s@.len(),
            out@ == spec_grouped_prefix(s@, i as int),
        decreases n - i,
    {
        if (n - i) % 3 == 0 && i != 0 {
            out.push(32);
        }
        let b = s[i];
        out.push(b);
        proof {
            assert(out@ =~= spec_grouped_prefix(s@, i + 1 as int));
        }
        i = i + 1;
    }
    out
}

/// Relies on `String::from_utf8`: bytes below 0x80 are single-byte
/// code points, so the string's characters are exactly these bytes.
#[verifier::external_body]
pub fn ascii_string(v: Vec<u8>) -> (r: String)
    requires
        forall|i: int| 0 <= i < v@.len() ==> v@[i] < 128,
    ensures
        r@ == ascii_chars(v@),
{
    String::from_utf8(v).unwrap()
}

/// `n` in plain decimal.
pub fn u64_string(n: u64) -> (r: String)
    ensures
        r@ == ascii_chars(spec_digits(n as nat)),
{
    let mut v: Vec<u8> = Vec::new();
    push_digits(n, &mut v);
    proof {
        lemma_digits_ascii(n as nat);
        assert(v@ =~= spec_digits(n as nat));
    }
    ascii_string(v)
}

/// `n` in decimal with thousands spaces, as the metric tiles show it.
pub fn format_number(n: u64) -> (r: String)
    ensures
        r@ == spec_format_number(n as nat),
{
    let mut v: Vec<u8> = Vec::new();
    push_digits(n, &mut v);
    proof {
        lemma_digits_ascii(n as nat);
        assert(v@ =~= spec_digits(n as nat));
    }
    let g = group_bytes(&v);
    proof {
        lemma_grouped_prefix_ascii(v@, v@.len() as int);
    }
    ascii_string(g)
}

/// A signed number with thousands spaces; the sign byte takes part in
/// the grouping, as the display convention has it.
pub fn format_signed(n: i128) -> (r: String)
    requires
        -(u64::MAX as i128) <= n <= u64::MAX as i128,
    ensures
        r@ == spec_format_signed(n as int),
{
    let mut v: Vec<u8> = Vec::new();
    if n < 0 {
        v.push(45);
        push_digits((-n) as u64, &mut v);
        proof {
            lemma_digits_ascii((-n) as nat);
            assert(v@ =~= spec_signed_digits(n as int));
        }
    } else {
        push_digits(n as u64, &mut v);
        proof {
            lemma_digits_ascii(n as nat);
            assert(v@ =~= spec_signed_digits(n as int));
        }
    }
    let g = group_bytes(&v);
    proof {
        lemma_grouped_prefix_ascii(v@, v@.len() as int);
    }
    ascii_string(g)
}

/// A date as `YYYY-MM-DD`.
pub fn date_string(d: &Date) -> (r: String)
    ensures
        r@ == spec_date_str(*d),
{
    let mut v: Vec<u8> = Vec::new();
    push_padded(d.year as u64, 4, &mut v);
    v.push(45);
    push_padded(d.month as u64, 2, &mut v);
    v.push(45);
    push_padded(d.day as u64, 2, &mut v);
    proof {
        lemma_padded_ascii(d.year as nat, 4);
        lemma_padded_ascii(d.month as nat, 2);
        lemma_padded_ascii(d.day as nat, 2);
        assert(v@ =~= spec_padded(d.year as nat, 4) + seq![45u8] + spec_padded(d.month as nat, 2)
            + seq![45u8] + spec_padded(d.day as nat, 2));
    }
    ascii_string(v)
}

/// Padding keeps every byte in the ASCII range.
pub proof fn lemma_padded_ascii(n: nat, w: nat)
    ensures
        forall|i: int| 0 <= i < spec_padded(n, w).len() ==> #[trigger] spec_padded(n, w)[i] < 128,
{
    lemma_digits_ascii(n);
    lemma_zeros_ascii((w - spec_digits(n).len()) as nat);
}

/// The fixed month-name table of the deployment's display language.
pub open spec fn spec_month_name(m: u8) -> Seq<char> {
    if m == 1 {
        "Janvier"@
    } else if m == 2 {
        "Février"@
    } else if m == 3 {
        "Mars"@
    } else if m == 4 {
        "Avril"@
    } else if m == 5 {
        "Mai"@
    } else if m == 6 {
        "Juin"@
    } else if m == 7 {
        "Juillet"@
    } else if m == 8 {
        "Août"@
    } else if m == 9 {
        "Septembre"@
    } else if m == 10 {
        "Octobre"@
    } else if m == 11 {
        "Novembre"@
    } else {
        "Décembre"@
    }
}

/// The display name of a month.
pub fn month_name(m: u8) -> (r: &'static str)
    requires
        1 <= m <= 12,
    ensures
        r@ == spec_month_name(m),
{
    if m == 1 {
        "Janvier"
    } else if m == 2 {
        "Février"
    } else if m == 3 {
        "Mars"
    } else if m == 4 {
        "Avril"
    } else if m == 5 {
        "Mai"
    } else if m == 6 {
        "Juin"
    } else if m == 7 {
        "Juillet"
    } else if m == 8 {
        "Août"
    } else if m == 9 {
        "Septembre"
    } else if m == 10 {
        "Octobre"
    } else if m == 11 {
        "Novembre"
    } else {
        "Décembre"
    }
}

} // verus!
