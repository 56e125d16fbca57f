//! A string of bounded length in a fixed buffer.

use vstd::arithmetic::power::pow;
use vstd::prelude::*;
use vstd::slice::slice_subrange;
use vstd::string::*;
use vstd::utf8::*;

verus! {

/// The first `n` elements of `s`, or all of `s` where it is shorter.
pub open spec fn cut<T>(s: Seq<T>, n: int) -> Seq<T> {
    if s.len() <= n {
        s
    } else {
        s.take(n)
    }
}

/// The characters that `bytes` show: the decoded text, or nothing where the
/// bytes are not UTF-8.
pub open spec fn shown(bytes: Seq<u8>) -> Seq<char> {
    if valid_utf8(bytes) {
        decode_utf8(bytes)
    } else {
        Seq::empty()
    }
}

/// The decimal digits of `n`, as ASCII.
pub open spec fn decimal(n: nat) -> Seq<u8>
    decreases n,
{
    if n < 10 {
        seq![(48 + n) as u8]
    } else {
        decimal(n / 10).push((48 + n % 10) as u8)
    }
}

/// The decimal digits of `n` with a minus sign where `n` is negative.
pub open spec fn signed_decimal(n: int) -> Seq<u8> {
    if n < 0 {
        seq![45u8] + decimal((-n) as nat)
    } else {
        decimal(n as nat)
    }
}

/// `s` with spaces before it, up to `width` bytes.
pub open spec fn padded(s: Seq<u8>, width: int) -> Seq<u8> {
    if s.len() < width {
        Seq::new((width - s.len()) as nat, |i: int| 32u8) + s
    } else {
        s
    }
}

/// `s` with zeros after it, up to `n` bytes.
pub open spec fn zero_filled(s: Seq<u8>, n: nat) -> Seq<u8> {
    Seq::new(
        n,
        |i: int|
            if i < s.len() {
                s[i]
            } else {
                0
            },
    )
}

/// `core::str::from_utf8`: the text that the bytes hold, `None` where they are
/// not UTF-8.
#[verifier::external_body]
fn str_from_utf8(bytes: &[u8]) -> (text: Option<&str>)
    ensures
        text is Some <==> valid_utf8(bytes@),
        text is Some ==> text->0.spec_bytes() == bytes@,
{
    core::str::from_utf8(bytes).ok()
}

/// Up to `N` bytes of text. What is written past the end is dropped.
pub struct ArrayString<const N: usize> {
    buf: [u8; N],
    len: usize,
}

impl<const N: usize> View for ArrayString<N> {
    type V = Seq<u8>;

    /// The bytes that were written.
    closed spec fn view(&self) -> Seq<u8> {
        self.buf@.take(self.len as int)
    }
}

impl<const N: usize> ArrayString<N> {
    /// The whole buffer: what was written, and what lies after it.
    pub closed spec fn buffer(self) -> Seq<u8> {
        self.buf@
    }

    /// What was written fits, and the buffer after it is zero.
    #[verifier::type_invariant]
    spec fn within_buffer(self) -> bool {
        &&& self.len <= N
        &&& forall|i: int| self.len <= i < N ==> #[trigger] self.buf@[i] == 0
    }

    /// An empty string.
    pub fn new() -> (s: Self)
        ensures
            s@ == Seq::<u8>::empty(),
            s.buffer() == zero_filled(s@, N as nat),
    {
        let s = ArrayString { buf: [0u8; N], len: 0 };
        assert(s@ =~= Seq::<u8>::empty());
        s
    }

    /// The text, or the empty string where the bytes are not UTF-8.
    pub fn as_str(&self) -> (text: &str)
        ensures
            text@ == shown(self@),
    {
        proof {
            use_type_invariant(self);
        }
        let bytes = slice_subrange(self.buf.as_slice(), 0, self.len);
        assert(bytes@ =~= self@);
        match str_from_utf8(bytes) {
            Some(text) => {
                proof {
                    encode_utf8_decode_utf8(text@);
                }
                text
            },
            None => {
                proof {
                    reveal_strlit("");
                }
                assert(""@ =~= Seq::<char>::empty());
                ""
            },
        }
    }

    /// Appends as many of the bytes as there is room for.
    fn write_bytes(&mut self, bytes: &[u8])
        ensures
            final(self)@ == cut(old(self)@ + bytes@, N as int),
            final(self).buffer() == zero_filled(final(self)@, N as nat),
    {
        proof {
            use_type_invariant(&*self);
        }
        let rem: usize = N - self.len;
        let to_copy: usize = if bytes.len() < rem { bytes.len() } else { rem };
        let start: usize = self.len;
        let mut buf: [u8; N] = self.buf;
        let mut i: usize = 0;
        while i < to_copy
            invariant
                i <= to_copy <= bytes@.len(),
                start + to_copy <= N,
                buf@.take(start as int) == old(self)@,
                buf@.subrange(start as int, start + i) == bytes@.take(i as int),
                forall|k: int| start + i <= k < N ==> #[trigger] buf@[k] == 0,
            decreases to_copy - i,
        {
            let ghost before = buf@;
            buf[start + i] = bytes[i];
            assert(buf@.take(start as int) =~= before.take(start as int));
            assert(buf@.subrange(start as int, start + i + 1) =~= before.subrange(
                start as int,
                start + i,
            ).push(bytes@[i as int]));
            assert(bytes@.take(i + 1) =~= bytes@.take(i as int).push(bytes@[i as int]));
            i += 1;
        }
        *self = ArrayString { buf, len: start + to_copy };
        assert(self@ =~= self.buf@.take(start as int) + self.buf@.subrange(
            start as int,
            start + to_copy,
        ));
        assert(self@ =~= cut(old(self)@ + bytes@, N as int));
        assert(self.buffer() =~= zero_filled(self@, N as nat));
    }

    /// Appends as many of the text's bytes as there is room for. The buffer after
    /// them stays zero.
    pub fn write_str(&mut self, s: &str)
        ensures
            final(self)@ == cut(old(self)@ + s.spec_bytes(), N as int),
            final(self).buffer() == zero_filled(final(self)@, N as nat),
    {
        self.write_bytes(s.as_bytes());
    }

    /// Appends one byte where there is room for it.
    fn write_byte(&mut self, byte: u8)
        ensures
            final(self)@ == cut(old(self)@.push(byte), N as int),
            final(self).buffer() == zero_filled(final(self)@, N as nat),
    {
        let one: [u8; 1] = [byte];
        self.write_bytes(one.as_slice());
        assert(old(self)@ + one@ =~= old(self)@.push(byte));
    }

    /// Appends the decimal digits of `n`.
    pub fn write_u64(&mut self, n: u64)
        ensures
            final(self)@ == cut(old(self)@ + decimal(n as nat), N as int),
            final(self).buffer() == zero_filled(final(self)@, N as nat),
        decreases n,
    {
        if n >= 10 {
            self.write_u64(n / 10);
            self.write_byte((48 + n % 10) as u8);
            proof {
                lemma_cut_append(
                    old(self)@ + decimal(n as nat / 10),
                    seq![(48 + n % 10) as u8],
                    N as int,
                );
                assert(decimal(n as nat) =~= decimal(n as nat / 10) + seq![(48 + n % 10) as u8]);
                assert(cut(old(self)@ + decimal(n as nat / 10), N as int).push(
                    (48 + n % 10) as u8,
                ) =~= cut(old(self)@ + decimal(n as nat / 10), N as int) + seq![
                    (48 + n % 10) as u8,
                ]);
                assert(old(self)@ + decimal(n as nat) =~= old(self)@ + decimal(n as nat / 10)
                    + seq![(48 + n % 10) as u8]);
            }
        } else {
            self.write_byte((48 + n) as u8);
            assert(old(self)@ + decimal(n as nat) =~= old(self)@.push((48 + n) as u8));
        }
    }

    /// Appends `n` in decimal, with spaces before it up to `width` bytes.
    pub fn write_i32_padded(&mut self, n: i32, width: usize)
        ensures
            final(self)@ == cut(
                old(self)@ + padded(signed_decimal(n as int), width as int),
                N as int,
            ),
            final(self).buffer() == zero_filled(final(self)@, N as nat),
    {
        proof {
            use_type_invariant(&*self);
            assert(old(self)@ + Seq::new(0, |i: int| 32u8) =~= old(self)@);
        }
        let magnitude: u64 = if n < 0 {
            (-(n as i64)) as u64
        } else {
            n as u64
        };
        let mut len: usize = if n < 0 {
            2
        } else {
            1
        };
        let mut rest: u64 = magnitude;
        proof {
            lemma_decimal_len(magnitude as nat);
        }
        while rest >= 10
            invariant
                len + decimal(rest as nat).len() == 1 + signed_decimal(n as int).len(),
                signed_decimal(n as int).len() <= magnitude + 2,
                magnitude <= 0x8000_0000,
                decimal(rest as nat).len() >= 1,
            decreases rest,
        {
            proof {
                lemma_decimal_len(rest as nat / 10);
            }
            rest = rest / 10;
            len += 1;
        }
        let mut at: usize = len;
        while at < width
            invariant
                len == signed_decimal(n as int).len(),
                at <= width || at == len,
                len <= at,
                self@ == cut(old(self)@ + Seq::new((at - len) as nat, |i: int| 32u8), N as int),
            decreases width - at,
        {
            self.write_byte(32);
            proof {
                let spaces = Seq::new((at - len) as nat, |i: int| 32u8);
                assert(cut(old(self)@ + spaces, N as int).push(32u8) =~= cut(
                    old(self)@ + spaces,
                    N as int,
                ) + seq![32u8]);
                lemma_cut_append(old(self)@ + spaces, seq![32u8], N as int);
                assert(old(self)@ + Seq::new((at + 1 - len) as nat, |i: int| 32u8) =~= old(self)@
                    + spaces + seq![32u8]);
            }
            at += 1;
        }
        let ghost spaces = Seq::new((at - len) as nat, |i: int| 32u8);
        assert(padded(signed_decimal(n as int), width as int) =~= spaces + signed_decimal(
            n as int,
        ));
        if n < 0 {
            self.write_byte(45);
            proof {
                assert(cut(old(self)@ + spaces, N as int).push(45u8) =~= cut(
                    old(self)@ + spaces,
                    N as int,
                ) + seq![45u8]);
                lemma_cut_append(old(self)@ + spaces, seq![45u8], N as int);
                lemma_cut_append(
                    old(self)@ + spaces + seq![45u8],
                    decimal(magnitude as nat),
                    N as int,
                );
            }
        } else {
            proof {
                lemma_cut_append(old(self)@ + spaces, decimal(magnitude as nat), N as int);
            }
        }
        self.write_u64(magnitude);
        assert(old(self)@ + (spaces + signed_decimal(n as int)) =~= if n < 0 {
            old(self)@ + spaces + seq![45u8] + decimal(magnitude as nat)
        } else {
            old(self)@ + spaces + decimal(magnitude as nat)
        });
    }
}

proof fn lemma_decimal_len(n: nat)
    ensures
        1 <= decimal(n).len() <= n + 1,
    decreases n,
{
    if n >= 10 {
        lemma_decimal_len(n / 10);
    }
}

/// Appending to a cut string and cutting again loses nothing more than cutting
/// once.
pub broadcast proof fn lemma_cut_append<T>(s: Seq<T>, t: Seq<T>, n: int)
    requires
        0 <= n,
    ensures
        #[trigger] cut(cut(s, n) + t, n) == cut(s + t, n),
{
    assert(cut(cut(s, n) + t, n) =~= cut(s + t, n));
}

/// Two writes leave what one write of both texts leaves, whatever the room.
pub proof fn law_writes_concatenate(held: Seq<u8>, first: &str, second: &str, capacity: nat)
    ensures
        cut(
            cut(held + first.spec_bytes(), capacity as int) + second.spec_bytes(),
            capacity as int,
        ) == cut(held + (first.spec_bytes() + second.spec_bytes()), capacity as int),
{
    lemma_cut_append(held + first.spec_bytes(), second.spec_bytes(), capacity as int);
    assert(held + first.spec_bytes() + second.spec_bytes() =~= held + (first.spec_bytes()
        + second.spec_bytes()));
}

/// All of the texts in a row.
pub open spec fn joined(texts: Seq<Seq<u8>>) -> Seq<u8>
    decreases texts.len(),
{
    if texts.len() == 0 {
        Seq::empty()
    } else {
        joined(texts.drop_last()) + texts.last()
    }
}

/// What a string holds after writes of the texts, one after the other.
pub open spec fn after_writes(held: Seq<u8>, texts: Seq<Seq<u8>>, capacity: nat) -> Seq<u8>
    decreases texts.len(),
{
    if texts.len() == 0 {
        held
    } else {
        cut(after_writes(held, texts.drop_last(), capacity) + texts.last(), capacity as int)
    }
}

/// How texts are split into writes does not matter: a string holds the first bytes
/// of all of them in a row, as many as there is room for, and the buffer after them
/// is zero. Once it is full, further writes change nothing.
pub proof fn law_split_does_not_matter(held: Seq<u8>, texts: Seq<Seq<u8>>, more: Seq<u8>, capacity: nat)
    requires
        held.len() <= capacity,
    ensures
        ({
            let all = held + joined(texts);
            let after = after_writes(held, texts, capacity);
            let room = if all.len() < capacity {
                all.len()
            } else {
                capacity
            };
            &&& after == cut(all, capacity as int)
            &&& after.len() == room
            &&& after == all.take(room as int)
            &&& zero_filled(after, capacity).len() == capacity
            &&& forall|i: int|
                0 <= i < capacity ==> #[trigger] zero_filled(after, capacity)[i] == if i < room {
                    all[i]
                } else {
                    0u8
                }
            &&& after.len() == capacity ==> cut(after + more, capacity as int) == after
        }),
    decreases texts.len(),
{
    let all = held + joined(texts);
    if texts.len() == 0 {
        assert(all =~= held);
    } else {
        law_split_does_not_matter(held, texts.drop_last(), more, capacity);
        lemma_cut_append(held + joined(texts.drop_last()), texts.last(), capacity as int);
        assert(held + joined(texts.drop_last()) + texts.last() =~= all);
    }
    let after = after_writes(held, texts, capacity);
    assert(after == cut(all, capacity as int));
    assert(all.take(all.len() as int) =~= all);
    if after.len() == capacity {
        assert(cut(after + more, capacity as int) =~= after);
    }
}

/// Text that fits into an empty string is read back unchanged.
pub proof fn law_text_reads_back(text: &str, capacity: nat)
    requires
        text.spec_bytes().len() <= capacity,
    ensures
        shown(cut(Seq::<u8>::empty() + text.spec_bytes(), capacity as int)) == text@,
{
    assert(Seq::<u8>::empty() + text.spec_bytes() =~= text.spec_bytes());
    encode_utf8_valid_utf8(text@);
    encode_utf8_decode_utf8(text@);
}

/// The number that a sequence of ASCII digits stands for.
pub open spec fn decimal_value(digits: Seq<u8>) -> int
    decreases digits.len(),
{
    if digits.len() == 0 {
        0
    } else {
        decimal_value(digits.drop_last()) * 10 + (digits.last() - 48)
    }
}

/// The digits of a number stand for that number.
pub proof fn law_decimal_value(n: nat)
    ensures
        decimal_value(decimal(n)) == n,
    decreases n,
{
    if n >= 10 {
        law_decimal_value(n / 10);
        assert(decimal(n).drop_last() =~= decimal(n / 10));
    } else {
        reveal_with_fuel(decimal_value, 2);
        assert(decimal(n).drop_last() =~= Seq::<u8>::empty());
    }
}

/// A text has no more characters than bytes.
pub proof fn lemma_shown_len(bytes: Seq<u8>)
    ensures
        shown(bytes).len() <= bytes.len(),
    decreases bytes.len(),
{
    if valid_utf8(bytes) && bytes.len() > 0 {
        lemma_shown_len(pop_first_scalar(bytes));
    }
}

/// Bytes below 128 show the characters with their values.
pub proof fn lemma_ascii_shown(bytes: Seq<u8>)
    requires
        forall|i: int| 0 <= i < bytes.len() ==> #[trigger] bytes[i] < 128,
    ensures
        shown(bytes) == bytes.map_values(|b: u8| b as char),
{
    let chars = bytes.map_values(|b: u8| b as char);
    assert(is_ascii_chars(chars));
    is_ascii_chars_encode_utf8(chars);
    assert(encode_utf8(chars) =~= bytes);
    encode_utf8_valid_utf8(chars);
    encode_utf8_decode_utf8(chars);
}

/// Digits are digits.
pub proof fn lemma_decimal_digits(n: nat)
    ensures
        forall|i: int| 0 <= i < decimal(n).len() ==> 48 <= #[trigger] decimal(n)[i] <= 57,
    decreases n,
{
    if n >= 10 {
        lemma_decimal_digits(n / 10);
        let rest = decimal(n / 10);
        assert(decimal(n) == rest.push((48 + n % 10) as u8));
        assert(forall|i: int| 0 <= i < rest.len() ==> decimal(n)[i] == rest[i]);
    }
}

/// A number below a power of ten has at most as many digits as the power has zeros.
pub proof fn lemma_decimal_short(n: nat, digits: nat)
    requires
        digits > 0,
        n < pow(10, digits),
    ensures
        decimal(n).len() <= digits,
    decreases digits,
{
    reveal_with_fuel(pow, 2);
    if n >= 10 {
        lemma_decimal_short(n / 10, (digits - 1) as nat);
    }
}

/// Twice as many bytes as characters are enough for characters below 0x800.
pub proof fn lemma_short_characters(chars: Seq<char>)
    requires
        forall|i: int| 0 <= i < chars.len() ==> (#[trigger] chars[i] as u32) < 0x800,
    ensures
        encode_utf8(chars).len() <= 2 * chars.len(),
    decreases chars.len(),
{
    if chars.len() > 0 {
        lemma_short_characters(chars.drop_first());
        assert((chars[0] as u32) < 0x800);
    }
}

/// A padded text ends with the text and starts with spaces, and is as long as the
/// longer of the two: it is never cut.
pub proof fn law_padding_is_in_front(s: Seq<u8>, width: int)
    ensures
        ({
            let all = padded(s, width);
            &&& all.len() == if s.len() >= width {
                s.len() as int
            } else {
                width
            }
            &&& all.skip(all.len() - s.len()) == s
            &&& forall|i: int| 0 <= i < all.len() - s.len() ==> #[trigger] all[i] == 32
        }),
{
    let all = padded(s, width);
    assert(all.skip(all.len() - s.len()) =~= s);
}

/// A signed number is read back: its digits stand for its size, after a minus sign
/// where it is negative and after nothing where it is not.
pub proof fn law_sign_reads_back(n: int)
    ensures
        n >= 0 ==> decimal_value(signed_decimal(n)) == n && signed_decimal(n)[0] != 45,
        n < 0 ==> signed_decimal(n)[0] == 45 && decimal_value(signed_decimal(n).skip(1)) == -n,
{
    let size = if n < 0 {
        (-n) as nat
    } else {
        n as nat
    };
    law_decimal_value(size);
    lemma_decimal_len(size);
    lemma_decimal_digits(size);
    if n < 0 {
        assert(signed_decimal(n).skip(1) =~= decimal(size));
    } else {
        assert(48 <= decimal(size)[0]);
    }
}

/// A number has no digit that it does not need: only zero starts with a zero.
pub proof fn law_no_leading_zero(n: nat)
    ensures
        decimal(n).len() > 0,
        n > 0 ==> decimal(n)[0] != 48,
    decreases n,
{
    if n >= 10 {
        law_no_leading_zero(n / 10);
    }
}

} // verus!
