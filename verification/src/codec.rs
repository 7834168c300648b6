//! The binary codec: every encodable entity reports its exact size and appends
//! exactly that many bytes, big-endian, without padding.

use vstd::prelude::*;

verus! {

/// The `width` lowest base-256 digits of `n`, most significant first.
pub open spec fn be_bytes(n: nat, width: nat) -> Seq<u8>
    decreases width,
{
    if width == 0 {
        Seq::empty()
    } else {
        be_bytes(n / 256, (width - 1) as nat).push((n % 256) as u8)
    }
}

/// The unsigned 32-bit value that stands for `v` in two's complement.
pub open spec fn twos_complement(v: int) -> nat {
    if v < 0 {
        (v + 0x1_0000_0000) as nat
    } else {
        v as nat
    }
}

/// A number written in `width` bytes takes `width` bytes.
pub proof fn lemma_be_bytes_len(n: nat, width: nat)
    ensures
        be_bytes(n, width).len() == width,
    decreases width,
{
    if width > 0 {
        lemma_be_bytes_len(n / 256, (width - 1) as nat);
    }
}

/// The number that big-endian bytes stand for.
pub open spec fn be_value(bytes: Seq<u8>) -> nat
    decreases bytes.len(),
{
    if bytes.len() == 0 {
        0
    } else {
        be_value(bytes.drop_last()) * 256 + bytes.last() as nat
    }
}

/// 256 to the power of `width`: the numbers below it fit `width` bytes.
pub open spec fn limit(width: nat) -> nat
    decreases width,
{
    if width == 0 {
        1
    } else {
        256 * limit((width - 1) as nat)
    }
}

/// A number that fits `width` bytes is read back from its bytes as it was
/// written; so every `u64` is read back from its eight bytes.
pub proof fn lemma_be_round_trip(n: nat, width: nat)
    requires
        n < limit(width),
    ensures
        be_value(be_bytes(n, width)) == n,
        width == 8 ==> limit(width) == 0x1_0000_0000_0000_0000,
        width == 4 ==> limit(width) == 0x1_0000_0000,
    decreases width,
{
    reveal_with_fuel(limit, 9);
    if width > 0 {
        let rest = be_bytes(n / 256, (width - 1) as nat);
        assert(be_bytes(n, width).drop_last() =~= rest);
        assert(be_bytes(n, width).last() == (n % 256) as u8);
        lemma_be_round_trip(n / 256, (width - 1) as nat);
    }
}

/// Appends `n` as eight big-endian bytes.
pub fn write_u64(n: u64, buf: &mut Vec<u8>)
    ensures
        final(buf)@ == old(buf)@ + be_bytes(n as nat, 8),
{
    let n1: u64 = n / 256;
    let n2: u64 = n1 / 256;
    let n3: u64 = n2 / 256;
    let n4: u64 = n3 / 256;
    let n5: u64 = n4 / 256;
    let n6: u64 = n5 / 256;
    let n7: u64 = n6 / 256;
    buf.push((n7 % 256) as u8);
    buf.push((n6 % 256) as u8);
    buf.push((n5 % 256) as u8);
    buf.push((n4 % 256) as u8);
    buf.push((n3 % 256) as u8);
    buf.push((n2 % 256) as u8);
    buf.push((n1 % 256) as u8);
    buf.push((n % 256) as u8);
    proof {
        reveal_with_fuel(be_bytes, 9);
        assert(final(buf)@ =~= old(buf)@ + be_bytes(n as nat, 8));
    }
}

/// Appends `v` as four big-endian bytes in two's complement.
pub fn write_i32(v: i32, buf: &mut Vec<u8>)
    ensures
        final(buf)@ == old(buf)@ + be_bytes(twos_complement(v as int), 4),
{
    let n: u64 = if v < 0 {
        (v as i64 + 0x1_0000_0000) as u64
    } else {
        v as u64
    };
    let n1: u64 = n / 256;
    let n2: u64 = n1 / 256;
    let n3: u64 = n2 / 256;
    buf.push((n3 % 256) as u8);
    buf.push((n2 % 256) as u8);
    buf.push((n1 % 256) as u8);
    buf.push((n % 256) as u8);
    proof {
        reveal_with_fuel(be_bytes, 5);
        assert(final(buf)@ =~= old(buf)@ + be_bytes(twos_complement(v as int), 4));
    }
}

/// Appends one byte: 1 for `true`, 0 for `false`.
pub fn write_flag(b: bool, buf: &mut Vec<u8>)
    ensures
        final(buf)@ == old(buf)@ + flag_bytes(b),
{
    buf.push(if b { 1u8 } else { 0u8 });
    proof {
        assert(final(buf)@ =~= old(buf)@ + flag_bytes(b));
    }
}

/// One byte for a flag: 1 for `true`, 0 for `false`.
pub open spec fn flag_bytes(b: bool) -> Seq<u8> {
    seq![if b { 1u8 } else { 0u8 }]
}

/// Appends the bytes of `text` as they are, without a length.
pub fn write_raw(text: &str, buf: &mut Vec<u8>)
    ensures
        final(buf)@ == old(buf)@ + vstd::utf8::encode_utf8(text@),
{
    let bytes = text.as_bytes();
    let mut i: usize = 0;
    while i < bytes.len()
        invariant
            i <= bytes@.len(),
            bytes@ == vstd::utf8::encode_utf8(text@),
            buf@ == old(buf)@ + bytes@.take(i as int),
        decreases bytes@.len() - i,
    {
        buf.push(bytes[i]);
        i += 1;
        proof {
            assert(bytes@.take(i as int) =~= bytes@.take(i - 1).push(bytes@[i - 1]));
            assert(buf@ =~= old(buf)@ + bytes@.take(i as int));
        }
    }
    proof {
        assert(bytes@.take(i as int) =~= bytes@);
    }
}

/// A length-prefixed text field: the byte length as a `u64`, then the UTF-8 bytes.
pub open spec fn text_bytes(s: Seq<char>) -> Seq<u8> {
    be_bytes(vstd::utf8::encode_utf8(s).len(), 8) + vstd::utf8::encode_utf8(s)
}

/// The two-phase contract of every entity of the registry file: `get_byte_size`
/// is the exact number of bytes that `write_byte` appends.
pub trait EncodeBinary {
    /// The bytes that stand for this value in the registry file.
    spec fn encoding(&self) -> Seq<u8>;

    /// Whether the value can be written: its parts can, and its size fits a `usize`.
    spec fn encodable(&self) -> bool;

    fn get_byte_size(&self) -> (n: usize)
        requires
            self.encodable(),
        ensures
            n == self.encoding().len(),
    ;

    fn write_byte(&self, buf: &mut Vec<u8>)
        requires
            self.encodable(),
        ensures
            final(buf)@ == old(buf)@ + self.encoding(),
    ;

    /// The size of the value where it can be written, and `None` where it cannot.
    fn checked_byte_size(&self) -> (r: Option<usize>)
        ensures
            r is Some <==> self.encodable(),
            r is Some ==> r->Some_0 == self.encoding().len(),
    ;
}

/// The sum of two sizes, where both are known and the sum fits a `usize`.
pub fn plus(a: Option<usize>, b: Option<usize>) -> (r: Option<usize>)
    ensures
        r is Some <==> a is Some && b is Some && a->Some_0 + b->Some_0 <= usize::MAX,
        r is Some ==> r->Some_0 == a->Some_0 + b->Some_0,
{
    match (a, b) {
        (Some(x), Some(y)) => x.checked_add(y),
        _ => None,
    }
}

impl EncodeBinary for String {
    open spec fn encoding(&self) -> Seq<u8> {
        text_bytes(self@)
    }

    open spec fn encodable(&self) -> bool {
        self.encoding().len() <= usize::MAX
    }

    fn get_byte_size(&self) -> (n: usize) {
        proof {
            lemma_be_bytes_len(vstd::utf8::encode_utf8(self@).len(), 8);
        }
        self.as_str().len() + 8
    }

    fn write_byte(&self, buf: &mut Vec<u8>) {
        let text = self.as_str();
        write_u64(text.len() as u64, buf);
        write_raw(text, buf);
        proof {
            assert(final(buf)@ =~= old(buf)@ + self.encoding());
        }
    }

    fn checked_byte_size(&self) -> (r: Option<usize>) {
        proof {
            lemma_be_bytes_len(vstd::utf8::encode_utf8(self@).len(), 8);
        }
        let n: usize = self.as_str().as_bytes().len();
        plus(Some(n), Some(8))
    }
}

/// The encodings of the items of `items`, one after the other.
pub open spec fn encode_all<T: EncodeBinary>(items: Seq<T>) -> Seq<u8>
    decreases items.len(),
{
    if items.len() == 0 {
        Seq::empty()
    } else {
        encode_all(items.drop_last()) + items.last().encoding()
    }
}

/// A counted sequence: the number of items as a `u64`, then each item.
pub open spec fn counted<T: EncodeBinary>(items: Seq<T>) -> Seq<u8> {
    be_bytes(items.len(), 8) + encode_all(items)
}

/// Whether a counted sequence can be written: each item can, and the whole
/// fits a `usize`.
pub open spec fn all_encodable<T: EncodeBinary>(items: Seq<T>) -> bool {
    &&& forall|i: int| 0 <= i < items.len() ==> (#[trigger] items[i]).encodable()
    &&& counted(items).len() <= usize::MAX
}

/// A prefix of a sequence never encodes to more bytes than the whole.
pub proof fn lemma_encode_all_prefix<T: EncodeBinary>(items: Seq<T>, k: int)
    requires
        0 <= k <= items.len(),
    ensures
        encode_all(items.take(k)).len() <= encode_all(items).len(),
        k < items.len() ==> encode_all(items.take(k)).len() + items[k].encoding().len()
            <= encode_all(items).len(),
    decreases items.len(),
{
    if k == items.len() {
        assert(items.take(k) =~= items);
    } else {
        let rest = items.drop_last();
        assert(rest.take(k) =~= items.take(k));
        if k < rest.len() {
            lemma_encode_all_prefix(rest, k);
        } else {
            assert(rest.take(k) =~= rest);
        }
    }
}

/// The size of a counted sequence.
pub fn counted_size<T: EncodeBinary>(items: &Vec<T>) -> (n: usize)
    requires
        all_encodable(items@),
    ensures
        n == counted(items@).len(),
{
    let mut n: usize = 8;
    let mut i: usize = 0;
    proof {
        lemma_be_bytes_len(items@.len(), 8);
        assert(items@.take(0) =~= Seq::<T>::empty());
    }
    while i < items.len()
        invariant
            i <= items@.len(),
            all_encodable(items@),
            be_bytes(items@.len(), 8).len() == 8,
            n == 8 + encode_all(items@.take(i as int)).len(),
        decreases items@.len() - i,
    {
        proof {
            lemma_encode_all_prefix(items@, i as int);
            assert(items@.take(i + 1).drop_last() =~= items@.take(i as int));
        }
        n += items[i].get_byte_size();
        i += 1;
    }
    proof {
        assert(items@.take(i as int) =~= items@);
    }
    n
}

/// Appends a counted sequence.
pub fn write_counted<T: EncodeBinary>(items: &Vec<T>, buf: &mut Vec<u8>)
    requires
        all_encodable(items@),
    ensures
        final(buf)@ == old(buf)@ + counted(items@),
{
    write_u64(items.len() as u64, buf);
    let mut i: usize = 0;
    proof {
        assert(items@.take(0) =~= Seq::<T>::empty());
        assert(buf@ =~= old(buf)@ + be_bytes(items@.len(), 8) + encode_all(items@.take(0)));
    }
    while i < items.len()
        invariant
            i <= items@.len(),
            all_encodable(items@),
            buf@ == old(buf)@ + be_bytes(items@.len(), 8) + encode_all(items@.take(i as int)),
        decreases items@.len() - i,
    {
        proof {
            assert(items@.take(i + 1).drop_last() =~= items@.take(i as int));
        }
        items[i].write_byte(buf);
        i += 1;
        proof {
            assert(buf@ =~= old(buf)@ + be_bytes(items@.len(), 8) + encode_all(
                items@.take(i as int),
            ));
        }
    }
    proof {
        assert(items@.take(i as int) =~= items@);
        assert(buf@ =~= old(buf)@ + counted(items@));
    }
}

/// The size of a counted sequence where it can be written.
pub fn counted_checked_size<T: EncodeBinary>(items: &Vec<T>) -> (r: Option<usize>)
    ensures
        r is Some <==> all_encodable(items@),
        r is Some ==> r->Some_0 == counted(items@).len(),
{
    let mut n: usize = 8;
    let mut i: usize = 0;
    proof {
        lemma_be_bytes_len(items@.len(), 8);
        assert(items@.take(0) =~= Seq::<T>::empty());
    }
    while i < items.len()
        invariant
            i <= items@.len(),
            be_bytes(items@.len(), 8).len() == 8,
            n == 8 + encode_all(items@.take(i as int)).len(),
            forall|j: int| 0 <= j < i ==> (#[trigger] items@[j]).encodable(),
        decreases items@.len() - i,
    {
        proof {
            lemma_encode_all_prefix(items@, i as int);
            assert(items@.take(i + 1).drop_last() =~= items@.take(i as int));
        }
        match plus(Some(n), items[i].checked_byte_size()) {
            Some(m) => {
                n = m;
            },
            None => {
                return None;
            },
        }
        i += 1;
    }
    proof {
        assert(items@.take(i as int) =~= items@);
    }
    Some(n)
}

} // verus!
