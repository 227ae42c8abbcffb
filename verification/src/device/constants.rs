//! Push constants: bindless indices and scalars as bytes.
use vstd::prelude::*;
use vstd::string::StringExecFns;

use crate::device::COMPUTE_PUSH_CONSTANT_BYTES;
use crate::error::{GpuError, GpuErrorView};
use crate::text;

verus! {

/// Order of the bytes of a word in memory.
#[derive(Clone, Copy, PartialEq, Eq, Structural, Debug)]
pub enum ByteOrder {
    Little,
    Big,
}

/// Scalar argument of a shader. A float is given by the bits of an IEEE 754 single.
#[derive(Clone, Copy, PartialEq, Eq, Structural, Debug)]
pub enum Scalar {
    U32(u32),
    I32(i32),
    F32(u32),
}

/// Arguments of a shader: indices into the bindless tables, and scalars.
pub struct Bindings {
    pub buffers: Vec<u32>,
    pub textures: Vec<u32>,
    pub scalars: Vec<Scalar>,
}

/// Mathematical form of [`Bindings`].
pub struct BindingsView {
    pub buffers: Seq<u32>,
    pub textures: Seq<u32>,
    pub scalars: Seq<Scalar>,
}

impl View for Bindings {
    type V = BindingsView;

    open spec fn view(&self) -> BindingsView {
        BindingsView {
            buffers: self.buffers@,
            textures: self.textures@,
            scalars: self.scalars@,
        }
    }
}

/// Byte `k` of a word, counted from the least significant.
pub open spec fn byte_of(w: u32, k: int) -> u8 {
    if k == 0 {
        (w % 0x100) as u8
    } else if k == 1 {
        (w / 0x100 % 0x100) as u8
    } else if k == 2 {
        (w / 0x1_0000 % 0x100) as u8
    } else {
        (w / 0x100_0000) as u8
    }
}

/// Bytes of a word.
pub open spec fn word_bytes(order: ByteOrder, w: u32) -> Seq<u8> {
    match order {
        ByteOrder::Little => seq![byte_of(w, 0), byte_of(w, 1), byte_of(w, 2), byte_of(w, 3)],
        ByteOrder::Big => seq![byte_of(w, 3), byte_of(w, 2), byte_of(w, 1), byte_of(w, 0)],
    }
}

/// Bytes of a sequence of words.
pub open spec fn words_bytes(order: ByteOrder, words: Seq<u32>) -> Seq<u8>
    decreases words.len(),
{
    if words.len() == 0 {
        Seq::empty()
    } else {
        words_bytes(order, words.drop_last()) + word_bytes(order, words.last())
    }
}

/// Word with the given four bytes.
pub open spec fn bytes_word(order: ByteOrder, b: Seq<u8>) -> u32 {
    match order {
        ByteOrder::Little => (b[0] + b[1] * 0x100 + b[2] * 0x1_0000 + b[3] * 0x100_0000) as u32,
        ByteOrder::Big => (b[3] + b[2] * 0x100 + b[1] * 0x1_0000 + b[0] * 0x100_0000) as u32,
    }
}

/// Word of a scalar: a negative number in two's complement, a float by its bits.
pub open spec fn scalar_word(s: Scalar) -> u32 {
    match s {
        Scalar::U32(v) => v,
        Scalar::I32(v) => if v >= 0 {
            v as u32
        } else {
            (v + 0x1_0000_0000) as u32
        },
        Scalar::F32(bits) => bits,
    }
}

/// Words of a sequence of scalars.
pub open spec fn scalar_words(scalars: Seq<Scalar>) -> Seq<u32> {
    scalars.map_values(|s: Scalar| scalar_word(s))
}

/// Push constants of a dispatch: buffer indices, then scalars.
pub open spec fn compute_words(b: BindingsView) -> Seq<u32> {
    b.buffers + scalar_words(b.scalars)
}

/// Push constants of a draw: buffer indices, texture indices, then scalars.
pub open spec fn graphics_words(b: BindingsView) -> Seq<u32> {
    b.buffers + b.textures + scalar_words(b.scalars)
}

/// The words fit in the push constants of a compute shader.
pub open spec fn constants_fit(words: Seq<u32>) -> bool {
    words.len() * 4 <= COMPUTE_PUSH_CONSTANT_BYTES
}

/// Message for too many push constants.
pub open spec fn constants_text() -> Seq<char> {
    "push constants exceed "@ + text::decimal_text(COMPUTE_PUSH_CONSTANT_BYTES as nat) + " bytes"@
}

/// Word of a scalar.
pub fn word_of(s: Scalar) -> (w: u32)
    ensures
        w == scalar_word(s),
{
    match s {
        Scalar::U32(v) => v,
        Scalar::I32(v) => {
            let w: u32 = v as u32;
            assert(v as u32 == if v >= 0 {
                v as int
            } else {
                v + 0x1_0000_0000
            }) by (bit_vector);
            w
        },
        Scalar::F32(bits) => bits,
    }
}

/// Appends the bytes of a word.
pub fn push_word(bytes: &mut Vec<u8>, order: ByteOrder, w: u32)
    ensures
        final(bytes)@ == old(bytes)@ + word_bytes(order, w),
{
    let b0: u8 = (w % 0x100) as u8;
    let b1: u8 = (w / 0x100 % 0x100) as u8;
    let b2: u8 = (w / 0x1_0000 % 0x100) as u8;
    let b3: u8 = (w / 0x100_0000) as u8;
    match order {
        ByteOrder::Little => {
            bytes.push(b0);
            bytes.push(b1);
            bytes.push(b2);
            bytes.push(b3);
        },
        ByteOrder::Big => {
            bytes.push(b3);
            bytes.push(b2);
            bytes.push(b1);
            bytes.push(b0);
        },
    }
    assert(bytes@ =~= old(bytes)@ + word_bytes(order, w));
}

pub(crate) proof fn lemma_words_push(order: ByteOrder, words: Seq<u32>, w: u32)
    ensures
        words_bytes(order, words.push(w)) == words_bytes(order, words) + word_bytes(order, w),
{
    assert(words.push(w).drop_last() =~= words);
}

/// Packed words take four bytes each.
pub proof fn words_bytes_len(order: ByteOrder, words: Seq<u32>)
    ensures
        words_bytes(order, words).len() == 4 * words.len(),
    decreases words.len(),
{
    if words.len() > 0 {
        words_bytes_len(order, words.drop_last());
    }
}

/// Packed words are read back as they were written.
pub proof fn words_round_trip(order: ByteOrder, words: Seq<u32>, i: int)
    requires
        0 <= i < words.len(),
    ensures
        bytes_word(order, words_bytes(order, words).subrange(4 * i, 4 * i + 4)) == words[i],
    decreases words.len(),
{
    words_bytes_len(order, words);
    words_bytes_len(order, words.drop_last());
    let all = words_bytes(order, words);
    let rest = words_bytes(order, words.drop_last());
    if i == words.len() - 1 {
        let w = words[i];
        assert(all.subrange(4 * i, 4 * i + 4) =~= word_bytes(order, w));
        assert((w % 0x100) + (w / 0x100 % 0x100) * 0x100 + (w / 0x1_0000 % 0x100) * 0x1_0000 + (w
            / 0x100_0000) * 0x100_0000 == w);
    } else {
        words_round_trip(order, words.drop_last(), i);
        assert(all.subrange(4 * i, 4 * i + 4) =~= rest.subrange(4 * i, 4 * i + 4));
    }
}

/// Appends words to packed bytes, up to the push constants of a compute shader. Returns `false`
/// as soon as a word does not fit.
fn push_words(
    bytes: &mut Vec<u8>,
    order: ByteOrder,
    words: &Vec<u32>,
    Ghost(before): Ghost<Seq<u32>>,
) -> (fits: bool)
    requires
        old(bytes)@ == words_bytes(order, before),
        constants_fit(before),
    ensures
        fits == constants_fit(before + words@),
        fits ==> final(bytes)@ == words_bytes(order, before + words@),
{
    let n: usize = words.len();
    let mut i: usize = 0;
    assert(before + words@.take(0) =~= before);
    while i < n
        invariant
            n == words.len(),
            i <= n,
            bytes@ == words_bytes(order, before + words@.take(i as int)),
            constants_fit(before + words@.take(i as int)),
        decreases n - i,
    {
        proof {
            words_bytes_len(order, before + words@.take(i as int));
        }
        if bytes.len() + 4 > COMPUTE_PUSH_CONSTANT_BYTES {
            return false;
        }
        push_word(bytes, order, words[i]);
        proof {
            lemma_words_push(order, before + words@.take(i as int), words@[i as int]);
            assert(before + words@.take(i + 1) =~= (before + words@.take(i as int)).push(
                words@[i as int],
            ));
        }
        i += 1;
    }
    assert(words@.take(n as int) =~= words@);
    true
}

/// Words of a list of scalars.
pub fn words_of(scalars: &Vec<Scalar>) -> (words: Vec<u32>)
    ensures
        words@ == scalar_words(scalars@),
{
    let mut words: Vec<u32> = Vec::new();
    let n: usize = scalars.len();
    let mut i: usize = 0;
    while i < n
        invariant
            n == scalars.len(),
            i <= n,
            words@ == scalar_words(scalars@.take(i as int)),
        decreases n - i,
    {
        words.push(word_of(scalars[i]));
        i += 1;
        assert(scalar_words(scalars@.take(i as int)) =~= scalar_words(
            scalars@.take(i - 1),
        ).push(scalar_word(scalars@[i - 1])));
    }
    assert(scalars@.take(n as int) =~= scalars@);
    words
}

/// Packs the push constants of a dispatch.
pub fn pack_compute_constants(b: &Bindings, order: ByteOrder) -> (r: Result<Vec<u8>, GpuError>)
    ensures
        match r {
            Ok(bytes) => constants_fit(compute_words(b@)) && bytes@ == words_bytes(
                order,
                compute_words(b@),
            ),
            Err(e) => !constants_fit(compute_words(b@)) && e@ == GpuErrorView::Dispatch(
                constants_text(),
            ),
        },
{
    let mut bytes: Vec<u8> = Vec::new();
    let scalars: Vec<u32> = words_of(&b.scalars);
    let ghost none = Seq::<u32>::empty();
    assert(none + b@.buffers =~= b@.buffers);
    if push_words(&mut bytes, order, &b.buffers, Ghost(none)) && push_words(
        &mut bytes,
        order,
        &scalars,
        Ghost(b@.buffers),
    ) {
        Ok(bytes)
    } else {
        let mut message = "push constants exceed ".to_owned();
        message.append(text::decimal(COMPUTE_PUSH_CONSTANT_BYTES as u64).as_str());
        message.append(" bytes");
        Err(GpuError::Dispatch(message))
    }
}

/// As many of the words, from the first on, as fit in the push constants.
pub open spec fn fitting_words(words: Seq<u32>) -> Seq<u32> {
    if constants_fit(words) {
        words
    } else {
        words.take(COMPUTE_PUSH_CONSTANT_BYTES as int / 4)
    }
}

/// Packs the push constants of a draw. What does not fit is dropped.
pub fn pack_graphics_constants(b: &Bindings, order: ByteOrder) -> (bytes: Vec<u8>)
    ensures
        bytes@ == words_bytes(order, fitting_words(graphics_words(b@))),
{
    let mut words: Vec<u32> = Vec::new();
    append_words(&mut words, &b.buffers);
    append_words(&mut words, &b.textures);
    let scalars: Vec<u32> = words_of(&b.scalars);
    append_words(&mut words, &scalars);
    assert(words@ =~= graphics_words(b@));
    let mut bytes: Vec<u8> = Vec::new();
    let n: usize = words.len();
    let mut i: usize = 0;
    assert(words@.take(0) =~= Seq::<u32>::empty());
    while i < n && i < COMPUTE_PUSH_CONSTANT_BYTES / 4
        invariant
            n == words.len(),
            i <= n,
            i <= COMPUTE_PUSH_CONSTANT_BYTES / 4,
            bytes@ == words_bytes(order, words@.take(i as int)),
        decreases n - i,
    {
        push_word(&mut bytes, order, words[i]);
        proof {
            lemma_words_push(order, words@.take(i as int), words@[i as int]);
            assert(words@.take(i + 1) =~= words@.take(i as int).push(words@[i as int]));
        }
        i += 1;
    }
    assert(words@.take(i as int) =~= fitting_words(words@));
    bytes
}

fn append_words(out: &mut Vec<u32>, words: &Vec<u32>)
    ensures
        final(out)@ == old(out)@ + words@,
{
    let n: usize = words.len();
    let mut i: usize = 0;
    let ghost before = out@;
    assert(before + words@.take(0) =~= before);
    while i < n
        invariant
            n == words.len(),
            i <= n,
            out@ == before + words@.take(i as int),
        decreases n - i,
    {
        out.push(words[i]);
        i += 1;
        assert(words@.take(i as int) =~= words@.take(i - 1).push(words@[i - 1]));
        assert(out@ =~= before + words@.take(i as int));
    }
    assert(words@.take(n as int) =~= words@);
}

// ── Laws ───────────────────────────────────────────────────────────────────────

/// The four bytes from `4 * i` on are the number `w`, in the given order.
pub open spec fn spells(order: ByteOrder, bytes: Seq<u8>, i: int, w: int) -> bool {
    &&& 0 <= i
    &&& 4 * i + 4 <= bytes.len()
    &&& match order {
        ByteOrder::Little => w == bytes[4 * i] + 0x100 * bytes[4 * i + 1] + 0x1_0000 * bytes[4 * i
            + 2] + 0x100_0000 * bytes[4 * i + 3],
        ByteOrder::Big => w == bytes[4 * i + 3] + 0x100 * bytes[4 * i + 2] + 0x1_0000 * bytes[4 * i
            + 1] + 0x100_0000 * bytes[4 * i],
    }
}

/// Number that the bits of a scalar spell.
pub open spec fn scalar_bits(s: Scalar) -> int {
    match s {
        Scalar::U32(v) => v as int,
        Scalar::I32(v) => (v as int) % 0x1_0000_0000,
        Scalar::F32(bits) => bits as int,
    }
}

/// Packed words are spelled one after the other.
pub proof fn words_are_spelled(order: ByteOrder, words: Seq<u32>, i: int)
    requires
        0 <= i < words.len(),
    ensures
        words_bytes(order, words).len() == 4 * words.len(),
        spells(order, words_bytes(order, words), i, words[i] as int),
{
    words_bytes_len(order, words);
    words_round_trip(order, words, i);
    let b = words_bytes(order, words);
    let s = b.subrange(4 * i, 4 * i + 4);
    assert(s[0] == b[4 * i] && s[1] == b[4 * i + 1] && s[2] == b[4 * i + 2] && s[3] == b[4 * i + 3]);
}

/// The push constants of a dispatch are its buffer indices in their order, then its scalars in
/// theirs, four bytes each and nothing else. They are accepted up to 128 bytes.
pub proof fn compute_constants_are_spelled(order: ByteOrder, b: BindingsView)
    ensures
        ({
            let bytes = words_bytes(order, compute_words(b));
            let n = b.buffers.len() as int;
            &&& bytes.len() == 4 * (n + b.scalars.len())
            &&& forall|i: int|
                0 <= i < n ==> spells(order, bytes, i, #[trigger] b.buffers[i] as int)
            &&& forall|i: int|
                0 <= i < b.scalars.len() ==> spells(
                    order,
                    bytes,
                    n + i,
                    scalar_bits(#[trigger] b.scalars[i]),
                )
            &&& constants_fit(compute_words(b)) <==> bytes.len() <= 128
        }),
{
    let words = compute_words(b);
    let n = b.buffers.len() as int;
    words_bytes_len(order, words);
    assert forall|i: int| 0 <= i < n implies spells(
        order,
        words_bytes(order, words),
        i,
        #[trigger] b.buffers[i] as int,
    ) by {
        words_are_spelled(order, words, i);
        assert(words[i] == b.buffers[i]);
    }
    assert forall|i: int| 0 <= i < b.scalars.len() implies spells(
        order,
        words_bytes(order, words),
        n + i,
        scalar_bits(#[trigger] b.scalars[i]),
    ) by {
        words_are_spelled(order, words, n + i);
        assert(words[n + i] == scalar_word(b.scalars[i]));
    }
}

/// The push constants of a draw are its buffer indices, then its texture indices, then its
/// scalars, each in its order and four bytes long, up to 128 bytes in all.
pub proof fn graphics_constants_are_spelled(order: ByteOrder, b: BindingsView)
    ensures
        ({
            let bytes = words_bytes(order, fitting_words(graphics_words(b)));
            let n = b.buffers.len() as int;
            let m = b.textures.len() as int;
            let all = 4 * (n + m + b.scalars.len());
            &&& bytes.len() == if all <= 128 {
                all
            } else {
                128
            }
            &&& forall|i: int|
                0 <= i < n && i < 32 ==> spells(order, bytes, i, #[trigger] b.buffers[i] as int)
            &&& forall|i: int|
                0 <= i < m && n + i < 32 ==> spells(
                    order,
                    bytes,
                    n + i,
                    #[trigger] b.textures[i] as int,
                )
            &&& forall|i: int|
                0 <= i < b.scalars.len() && n + m + i < 32 ==> spells(
                    order,
                    bytes,
                    n + m + i,
                    scalar_bits(#[trigger] b.scalars[i]),
                )
        }),
{
    let all = graphics_words(b);
    let words = fitting_words(all);
    let n = b.buffers.len() as int;
    let m = b.textures.len() as int;
    words_bytes_len(order, words);
    assert(all.len() == n + m + b.scalars.len());
    assert forall|i: int| 0 <= i < n && i < 32 implies spells(
        order,
        words_bytes(order, words),
        i,
        #[trigger] b.buffers[i] as int,
    ) by {
        words_are_spelled(order, words, i);
        assert(words[i] == all[i]);
    }
    assert forall|i: int| 0 <= i < m && n + i < 32 implies spells(
        order,
        words_bytes(order, words),
        n + i,
        #[trigger] b.textures[i] as int,
    ) by {
        words_are_spelled(order, words, n + i);
        assert(words[n + i] == all[n + i]);
    }
    assert forall|i: int| 0 <= i < b.scalars.len() && n + m + i < 32 implies spells(
        order,
        words_bytes(order, words),
        n + m + i,
        scalar_bits(#[trigger] b.scalars[i]),
    ) by {
        words_are_spelled(order, words, n + m + i);
        assert(words[n + m + i] == all[n + m + i]);
        assert(all[n + m + i] == scalar_word(b.scalars[i]));
    }
}

} // verus!
