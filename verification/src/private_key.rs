use vstd::prelude::*;

use crate::text::{push_char, split_on, split_on_char};

verus! {

/// Number of bytes in a netcode private key.
pub const PRIVATE_KEY_BYTES: usize = 32;

/// Why a private key text was rejected.
#[derive(Clone, Copy, Debug, PartialEq, Eq)]
pub enum PrivateKeyError {
    /// Some comma-separated piece is not a decimal number from 0 to 255
    /// (an empty piece counts as such).
    InvalidNumber,
    /// Every piece is a number, but there are this many of them instead of
    /// `PRIVATE_KEY_BYTES`.
    WrongLength(usize),
}

pub open spec fn is_ascii_digit(c: char) -> bool {
    '0' <= c && c <= '9'
}

/// The characters a key text is read from: decimal digits and commas.
pub open spec fn is_key_char(c: char) -> bool {
    is_ascii_digit(c) || c == ','
}

/// `s` with every character other than a digit or a comma left out.
pub open spec fn key_chars(s: Seq<char>) -> Seq<char>
    decreases s.len(),
{
    if s.len() == 0 {
        Seq::empty()
    } else if is_key_char(s.last()) {
        key_chars(s.drop_last()).push(s.last())
    } else {
        key_chars(s.drop_last())
    }
}

/// The comma-separated pieces that a key text is made of.
pub open spec fn key_pieces(s: Seq<char>) -> Seq<Seq<char>> {
    split_on(key_chars(s), ',')
}

pub open spec fn digit_value(c: char) -> int {
    c as int - '0' as int
}

/// The number that a string of decimal digits denotes.
pub open spec fn decimal_value(s: Seq<char>) -> int
    decreases s.len(),
{
    if s.len() == 0 {
        0
    } else {
        decimal_value(s.drop_last()) * 10 + digit_value(s.last())
    }
}

pub open spec fn all_digits(s: Seq<char>) -> bool {
    forall|i: int| 0 <= i < s.len() ==> is_ascii_digit(#[trigger] s[i])
}

/// A non-empty string of decimal digits (leading zeros allowed) whose value
/// fits in a byte.
pub open spec fn is_byte_number(s: Seq<char>) -> bool {
    &&& s.len() > 0
    &&& all_digits(s)
    &&& decimal_value(s) <= 255
}

pub open spec fn all_byte_numbers(pieces: Seq<Seq<char>>) -> bool {
    forall|i: int| 0 <= i < pieces.len() ==> is_byte_number(#[trigger] pieces[i])
}

/// What reading a key text gives: the byte values of its pieces, or why it
/// is rejected.
pub open spec fn private_key_outcome(s: Seq<char>) -> Result<Seq<u8>, PrivateKeyError> {
    let pieces = key_pieces(s);
    if !all_byte_numbers(pieces) {
        Err(PrivateKeyError::InvalidNumber)
    } else if pieces.len() != PRIVATE_KEY_BYTES {
        Err(PrivateKeyError::WrongLength(pieces.len() as usize))
    } else {
        Ok(Seq::new(pieces.len(), |i: int| decimal_value(pieces[i]) as u8))
    }
}

proof fn lemma_decimal_value_nonneg(s: Seq<char>)
    requires
        all_digits(s),
    ensures
        decimal_value(s) >= 0,
    decreases s.len(),
{
    if s.len() > 0 {
        assert(is_ascii_digit(s[s.len() - 1]));
        lemma_decimal_value_nonneg(s.drop_last());
    }
}

/// Keeps the digits and commas of `text`.
fn key_chars_of(text: &str) -> (out: String)
    ensures
        out@ == key_chars(text@),
{
    let mut out = String::new();
    let ghost mut seen: Seq<char> = Seq::empty();
    for c in it: text.chars()
        invariant
            seen == it.seq().take(it.index() as int),
            it.seq() == text@,
            out@ == key_chars(seen),
    {
        let ghost prev = seen;
        if ('0' <= c && c <= '9') || c == ',' {
            push_char(&mut out, c);
        }
        proof {
            seen = seen.push(c);
            assert(seen.drop_last() =~= prev);
        }
    }
    proof {
        assert(seen =~= text@);
    }
    out
}

/// Reads one piece as a byte: `Some` exactly when the piece is a non-empty
/// run of decimal digits whose value is at most 255.
fn parse_byte_number(piece: &str) -> (r: Option<u8>)
    ensures
        r is Some <==> is_byte_number(piece@),
        r matches Some(b) ==> b as int == decimal_value(piece@),
{
    let mut digits_only = true;
    let mut nonempty = false;
    // Exact while at most 255; once above, it only stays above.
    let mut value: u32 = 0;
    let ghost mut seen: Seq<char> = Seq::empty();
    for c in it: piece.chars()
        invariant
            seen == it.seq().take(it.index() as int),
            it.seq() == piece@,
            nonempty == (seen.len() > 0),
            digits_only == all_digits(seen),
            digits_only ==> {
                &&& decimal_value(seen) >= 0
                &&& decimal_value(seen) <= 255 ==> value as int == decimal_value(seen)
                &&& decimal_value(seen) > 255 ==> value > 255
            },
            value <= 2559,
    {
        let ghost prev = seen;
        if '0' <= c && c <= '9' {
            if value <= 255 {
                let d: u32 = (c as u32) - ('0' as u32);
                value = value * 10 + d;
            }
        } else {
            digits_only = false;
        }
        nonempty = true;
        proof {
            seen = seen.push(c);
            assert(seen.drop_last() =~= prev);
            assert(seen[seen.len() - 1] == c);
            if all_digits(prev) && is_ascii_digit(c) {
                assert forall|i: int| 0 <= i < seen.len() implies is_ascii_digit(#[trigger] seen[i]) by {
                    if i < prev.len() {
                        assert(seen[i] == prev[i]);
                    }
                }
            }
            if !all_digits(prev) {
                let k = choose|k: int| 0 <= k < prev.len() && !is_ascii_digit(#[trigger] prev[k]);
                assert(seen[k] == prev[k]);
            }
        }
    }
    proof {
        assert(seen =~= piece@);
    }
    if digits_only && nonempty && value <= 255 {
        Some(value as u8)
    } else {
        None
    }
}

/// Reads a netcode private key from text such as `"[1, 2, 3, ...]"`.
///
/// Every character other than a decimal digit or a comma is ignored; what is
/// left is split at the commas, and each piece must be a decimal number from 0
/// to 255. There must be exactly `PRIVATE_KEY_BYTES` of them.
pub fn parse_private_key(text: &str) -> (r: Result<[u8; PRIVATE_KEY_BYTES], PrivateKeyError>)
    ensures
        match private_key_outcome(text@) {
            Ok(bytes) => r matches Ok(key) && key@ == bytes,
            Err(e) => r == Err::<[u8; PRIVATE_KEY_BYTES], PrivateKeyError>(e),
        },
{
    let kept = key_chars_of(text);
    let pieces = split_on_char(kept.as_str(), ',');
    let ghost spec_pieces = key_pieces(text@);
    assert(pieces.deep_view() == spec_pieces);
    let mut values: Vec<u8> = Vec::new();
    let mut i: usize = 0;
    while i < pieces.len()
        invariant
            pieces.deep_view() == spec_pieces,
            spec_pieces == key_pieces(text@),
            i <= pieces.len(),
            values.len() == i,
            forall|j: int| 0 <= j < i ==> is_byte_number(#[trigger] spec_pieces[j]),
            forall|j: int| 0 <= j < i ==> values[j] as int == decimal_value(#[trigger] spec_pieces[j]),
        decreases pieces.len() - i,
    {
        assert(pieces[i as int]@ == spec_pieces[i as int]);
        match parse_byte_number(pieces[i].as_str()) {
            Some(b) => {
                values.push(b);
            },
            None => {
                assert(!is_byte_number(spec_pieces[i as int]));
                assert(!all_byte_numbers(spec_pieces));
                return Err(PrivateKeyError::InvalidNumber);
            },
        }
        i = i + 1;
    }
    if values.len() != PRIVATE_KEY_BYTES {
        return Err(PrivateKeyError::WrongLength(values.len()));
    }
    let mut key = [0u8; PRIVATE_KEY_BYTES];
    let mut k: usize = 0;
    while k < PRIVATE_KEY_BYTES
        invariant
            k <= PRIVATE_KEY_BYTES,
            values.len() == PRIVATE_KEY_BYTES,
            forall|j: int| 0 <= j < k ==> key[j] == values[j],
        decreases PRIVATE_KEY_BYTES - k,
    {
        key[k] = values[k];
        k = k + 1;
    }
    proof {
        let expected = Seq::new(spec_pieces.len(), |j: int| decimal_value(spec_pieces[j]) as u8);
        assert forall|j: int| 0 <= j < PRIVATE_KEY_BYTES implies key@[j] == expected[j] by {
            assert(key[j] == values[j]);
        }
        assert(key@ =~= expected);
    }
    Ok(key)
}

/// The character of a decimal digit.
pub open spec fn digit_char(d: nat) -> char {
    if d == 0 { '0' }
    else if d == 1 { '1' }
    else if d == 2 { '2' }
    else if d == 3 { '3' }
    else if d == 4 { '4' }
    else if d == 5 { '5' }
    else if d == 6 { '6' }
    else if d == 7 { '7' }
    else if d == 8 { '8' }
    else { '9' }
}

/// The decimal form of `n`, without leading zeros.
pub open spec fn decimal_digits(n: nat) -> Seq<char>
    decreases n,
{
    if n < 10 {
        seq![digit_char(n)]
    } else {
        decimal_digits(n / 10).push(digit_char(n % 10))
    }
}

/// Bytes written as decimal numbers separated by commas, e.g. `1,22,255`.
pub open spec fn key_text(bytes: Seq<u8>) -> Seq<char>
    decreases bytes.len(),
{
    if bytes.len() == 0 {
        Seq::empty()
    } else if bytes.len() == 1 {
        decimal_digits(bytes[0] as nat)
    } else {
        key_text(bytes.drop_last()).push(',') + decimal_digits(bytes.last() as nat)
    }
}

proof fn lemma_decimal_digits(n: nat)
    ensures
        decimal_digits(n).len() > 0,
        all_digits(decimal_digits(n)),
        decimal_value(decimal_digits(n)) == n,
    decreases n,
{
    if n < 10 {
        assert(digit_value(digit_char(n)) == n);
        assert(decimal_digits(n).drop_last() =~= Seq::<char>::empty());
        assert(decimal_value(Seq::<char>::empty()) == 0);
        assert(decimal_value(decimal_digits(n)) == n);
    } else {
        lemma_decimal_digits(n / 10);
        let d = decimal_digits(n);
        let r = n % 10;
        assert(n == (n / 10) * 10 + r);
        assert(digit_value(digit_char(r)) == r);
        assert(d.last() == digit_char(r));
        assert(d.drop_last() =~= decimal_digits(n / 10));
        assert(decimal_value(d) == decimal_value(d.drop_last()) * 10 + digit_value(d.last()));
        assert(decimal_value(d) == n);
        assert(d.drop_last() =~= decimal_digits(n / 10));
        assert forall|i: int| 0 <= i < d.len() implies is_ascii_digit(#[trigger] d[i]) by {
            if i < d.len() - 1 {
                assert(d[i] == decimal_digits(n / 10)[i]);
            }
        }
    }
}

proof fn lemma_key_chars_keeps(s: Seq<char>)
    requires
        forall|i: int| 0 <= i < s.len() ==> is_key_char(#[trigger] s[i]),
    ensures
        key_chars(s) == s,
    decreases s.len(),
{
    if s.len() > 0 {
        assert(is_key_char(s[s.len() - 1]));
        lemma_key_chars_keeps(s.drop_last());
        assert(s.drop_last().push(s.last()) =~= s);
    }
}

/// Splitting text that ends in a run without separators extends the last
/// piece by that run.
proof fn lemma_split_on_append_plain(q: Seq<char>, d: Seq<char>, sep: char)
    requires
        forall|i: int| 0 <= i < d.len() ==> #[trigger] d[i] != sep,
    ensures
        split_on(q + d, sep) == split_on(q, sep).update(
            split_on(q, sep).len() - 1,
            split_on(q, sep).last() + d,
        ),
    decreases d.len(),
{
    crate::text::lemma_split_on_nonempty(q, sep);
    if d.len() == 0 {
        assert(q + d =~= q);
        assert(split_on(q, sep).last() + d =~= split_on(q, sep).last());
        assert(split_on(q, sep).update(split_on(q, sep).len() - 1, split_on(q, sep).last())
            =~= split_on(q, sep));
    } else {
        let dl = d.drop_last();
        assert(d[d.len() - 1] != sep);
        lemma_split_on_append_plain(q, dl, sep);
        assert((q + d).drop_last() =~= q + dl);
        assert((q + d).last() == d.last());
        let init = split_on(q + dl, sep);
        let big = split_on(q, sep);
        assert(init.len() == big.len());
        assert(init.last() == big.last() + dl);
        assert((big.last() + dl).push(d.last()) =~= big.last() + d);
        assert(split_on(q + d, sep) == init.update(init.len() - 1, init.last().push((q + d).last())));
        assert(split_on(q + d, sep) =~= split_on(q, sep).update(
            split_on(q, sep).len() - 1,
            split_on(q, sep).last() + d,
        ));
    }
}

proof fn lemma_key_text(bytes: Seq<u8>)
    requires
        bytes.len() > 0,
    ensures
        forall|i: int| 0 <= i < key_text(bytes).len() ==> is_key_char(#[trigger] key_text(bytes)[i]),
        split_on(key_text(bytes), ',') == bytes.map_values(|b: u8| decimal_digits(b as nat)),
    decreases bytes.len(),
{
    let d = decimal_digits(bytes.last() as nat);
    lemma_decimal_digits(bytes.last() as nat);
    assert forall|i: int| 0 <= i < d.len() implies #[trigger] d[i] != ',' by {
        assert(is_ascii_digit(d[i]));
    }
    if bytes.len() == 1 {
        lemma_split_on_append_plain(Seq::<char>::empty(), d, ',');
        assert(Seq::<char>::empty() + d =~= d);
        assert(split_on(Seq::<char>::empty(), ',') =~= seq![Seq::<char>::empty()]);
        assert(split_on(d, ',') =~= bytes.map_values(|b: u8| decimal_digits(b as nat)));
        assert forall|i: int| 0 <= i < key_text(bytes).len() implies is_key_char(#[trigger] key_text(bytes)[i]) by {
            assert(is_ascii_digit(d[i]));
        }
    } else {
        let init = bytes.drop_last();
        lemma_key_text(init);
        let q = key_text(init).push(',');
        assert(q.drop_last() =~= key_text(init));
        lemma_split_on_append_plain(q, d, ',');
        crate::text::lemma_split_on_nonempty(key_text(init), ',');
        assert(split_on(q, ',') == split_on(key_text(init), ',').push(Seq::<char>::empty()));
        assert(Seq::<char>::empty() + d =~= d);
        assert(split_on(key_text(bytes), ',') =~= bytes.map_values(|b: u8| decimal_digits(b as nat)));
        let t = key_text(bytes);
        assert(t == q + d);
        assert forall|i: int| 0 <= i < t.len() implies is_key_char(#[trigger] t[i]) by {
            if i < key_text(init).len() {
                assert(t[i] == key_text(init)[i]);
            } else if i == key_text(init).len() {
                assert(t[i] == ',');
            } else {
                assert(t[i] == d[i - q.len()]);
                assert(is_ascii_digit(d[i - q.len()]));
            }
        }
    }
}

/// A key written as its bytes in decimal, separated by commas, reads back
/// as those bytes; written with any other number of bytes, it is rejected
/// with that number.
pub proof fn lemma_private_key_round_trip(bytes: Seq<u8>)
    requires
        bytes.len() > 0,
    ensures
        bytes.len() == PRIVATE_KEY_BYTES ==> private_key_outcome(key_text(bytes)) == Ok::<
            Seq<u8>,
            PrivateKeyError,
        >(bytes),
        bytes.len() != PRIVATE_KEY_BYTES && bytes.len() <= usize::MAX ==> private_key_outcome(key_text(bytes))
            == Err::<Seq<u8>, PrivateKeyError>(PrivateKeyError::WrongLength(bytes.len() as usize)),
{
    lemma_key_text(bytes);
    lemma_key_chars_keeps(key_text(bytes));
    let pieces = key_pieces(key_text(bytes));
    assert(pieces == bytes.map_values(|b: u8| decimal_digits(b as nat)));
    assert forall|i: int| 0 <= i < pieces.len() implies is_byte_number(#[trigger] pieces[i]) by {
        lemma_decimal_digits(bytes[i] as nat);
    }
    assert forall|i: int| 0 <= i < pieces.len() implies decimal_value(pieces[i]) as u8 == bytes[i] by {
        lemma_decimal_digits(bytes[i] as nat);
    }
    assert(Seq::new(pieces.len(), |i: int| decimal_value(pieces[i]) as u8) =~= bytes);
}

/// A key text that ends in a comma (so its last piece is empty) is always
/// rejected as holding an invalid number, whatever comes before.
pub proof fn lemma_private_key_trailing_comma(s: Seq<char>)
    ensures
        private_key_outcome(s.push(',')) == Err::<Seq<u8>, PrivateKeyError>(
            PrivateKeyError::InvalidNumber,
        ),
{
    let t = s.push(',');
    assert(t.drop_last() =~= s);
    assert(key_chars(t) == key_chars(s).push(','));
    assert(key_chars(t).drop_last() =~= key_chars(s));
    let pieces = key_pieces(t);
    assert(pieces == split_on(key_chars(s), ',').push(Seq::<char>::empty()));
    assert(!is_byte_number(pieces[pieces.len() - 1]));
}

/// Keeping the digits and commas of a text is filtering it by `is_key_char`.
pub proof fn lemma_key_chars_is_filter(s: Seq<char>)
    ensures
        key_chars(s) == s.filter(|c: char| is_key_char(c)),
    decreases s.len(),
{
    reveal(Seq::filter);
    if s.len() > 0 {
        lemma_key_chars_is_filter(s.drop_last());
    }
}

proof fn lemma_key_chars_idempotent(s: Seq<char>)
    ensures
        key_chars(key_chars(s)) == key_chars(s),
    decreases s.len(),
{
    if s.len() > 0 {
        lemma_key_chars_idempotent(s.drop_last());
        let k = key_chars(s.drop_last());
        if is_key_char(s.last()) {
            assert(k.push(s.last()).drop_last() =~= k);
        }
    }
}

/// Characters other than digits and commas make no difference: a key text
/// reads the same as its digits and commas alone.
pub proof fn lemma_private_key_ignores_other_chars(s: Seq<char>)
    ensures
        private_key_outcome(s) == private_key_outcome(key_chars(s)),
{
    lemma_key_chars_idempotent(s);
}

} // verus!
