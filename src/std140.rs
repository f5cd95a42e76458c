use vstd::prelude::*;
use crate::vector::{
    i32_bits, i32_to_bits, IVec2, IVec3, IVec4, Mat3, Mat4, UVec2, UVec3, UVec4, Vec2, Vec3, Vec4,
};

verus! {

/// The four bytes of a 32-bit word, least significant first. GPU buffers
/// are little-endian.
pub open spec fn le_bytes(w: u32) -> Seq<u8> {
    seq![
        (w % 256) as u8,
        ((w / 256) % 256) as u8,
        ((w / 65536) % 256) as u8,
        (w / 16777216) as u8,
    ]
}

/// The bytes of a run of 32-bit words, in order.
pub open spec fn words_bytes(ws: Seq<u32>) -> Seq<u8>
    decreases ws.len(),
{
    if ws.len() == 0 {
        Seq::empty()
    } else {
        words_bytes(ws.drop_last()) + le_bytes(ws.last())
    }
}

/// `n` zero bytes.
pub open spec fn zeros(n: nat) -> Seq<u8> {
    Seq::new(n, |i: int| 0u8)
}

/// How many bytes take an offset `len` up to the next multiple of `align`
/// (none for an alignment of zero).
pub open spec fn padding(len: nat, align: nat) -> nat {
    if align == 0 {
        0
    } else {
        ((align as int - len as int % align as int) % (align as int)) as nat
    }
}

/// Where one write landed: the offset of its first byte and the alignment it
/// asked for.
pub struct Placement {
    pub offset: nat,
    pub align: nat,
}

/// The largest alignment among a run of writes (zero for none).
pub open spec fn max_align(ws: Seq<Placement>) -> nat
    decreases ws.len(),
{
    if ws.len() == 0 {
        0
    } else {
        let m = max_align(ws.drop_last());
        if ws.last().align > m {
            ws.last().align
        } else {
            m
        }
    }
}

/// Alignments that the layout rules hand out: none yet, a scalar, a
/// two-component vector, or a wider vector / matrix column.
pub open spec fn is_layout_align(a: nat) -> bool {
    a == 0 || a == 4 || a == 8 || a == 16
}

/// The alignments that single values ask for: 4 for a scalar, 8 for a
/// two-component vector, 16 for a wider vector or a matrix column.
pub open spec fn is_value_align(a: nat) -> bool {
    a == 4 || a == 8 || a == 16
}

/// Every write of `ws` starts at a multiple of its alignment.
pub open spec fn all_aligned(ws: Seq<Placement>) -> bool {
    forall|i: int| 0 <= i < ws.len() ==> #[trigger] ws[i].offset % ws[i].align == 0
}

/// `ws` moved `by` bytes further into the buffer.
pub open spec fn shifted(ws: Seq<Placement>, by: nat) -> Seq<Placement> {
    Seq::new(ws.len(), |i: int| Placement { offset: ws[i].offset + by, align: ws[i].align })
}

/// The abstract state of a serializer.
pub struct Std140View {
    /// The bytes written so far.
    pub bytes: Seq<u8>,
    /// The largest alignment any write has asked for.
    pub alignment: nat,
    /// Every scalar, vector and matrix-column write so far, nested ones
    /// included, at its offset in `bytes`.
    pub writes: Seq<Placement>,
}

impl Std140View {
    /// The state of a fresh serializer.
    pub open spec fn empty() -> Std140View {
        Std140View { bytes: Seq::empty(), alignment: 0, writes: Seq::empty() }
    }

    /// Where a value of alignment `align` written next would start.
    pub open spec fn next_offset(self, align: nat) -> nat {
        self.bytes.len() + padding(self.bytes.len(), align)
    }

    /// The state after padding to `align` and appending `data`, without
    /// recording a placement.
    #[verifier::opaque]
    pub open spec fn with_bytes(self, data: Seq<u8>, align: nat) -> Std140View {
        Std140View {
            bytes: self.bytes + zeros(padding(self.bytes.len(), align)) + data,
            alignment: if align > self.alignment {
                align
            } else {
                self.alignment
            },
            writes: self.writes,
        }
    }

    /// The state after writing one value of alignment `align` whose bytes are
    /// `data`.
    #[verifier::opaque]
    pub open spec fn put(self, data: Seq<u8>, align: nat) -> Std140View {
        Std140View {
            writes: self.writes.push(Placement { offset: self.next_offset(align), align }),
            ..self.with_bytes(data, align)
        }
    }

    /// The state after writing a nested structure whose serialized form is
    /// `inner`: its bytes go at the next multiple of its alignment, and its
    /// writes are kept at their new offsets.
    #[verifier::opaque]
    pub open spec fn put_struct(self, inner: Std140View) -> Std140View {
        Std140View {
            writes: self.writes + shifted(inner.writes, self.next_offset(inner.alignment)),
            ..self.with_bytes(inner.bytes, inner.alignment)
        }
    }

    /// The state after padding the whole buffer to its own alignment.
    #[verifier::opaque]
    pub open spec fn aligned(self) -> Std140View {
        Std140View {
            bytes: self.bytes + zeros(padding(self.bytes.len(), self.alignment)),
            ..self
        }
    }

    /// The well-formedness of a serializer's state.
    pub open spec fn wf(self) -> bool {
        &&& is_layout_align(self.alignment)
        &&& self.alignment == max_align(self.writes)
        &&& all_aligned(self.writes)
        &&& forall|i: int|
            0 <= i < self.writes.len() ==> is_value_align(#[trigger] self.writes[i].align)
    }
}

/// The state after writing the three columns of `m`.
pub open spec fn mat3_put(v: Std140View, m: Mat3) -> Std140View {
    v.put(words_bytes(m.x_axis.words()), 16).put(words_bytes(m.y_axis.words()), 16).put(
        words_bytes(m.z_axis.words()),
        16,
    )
}

/// The state after writing the four columns of `m`.
#[verifier::opaque]
pub open spec fn mat4_put(v: Std140View, m: Mat4) -> Std140View {
    v.put(words_bytes(m.x_axis.words()), 16).put(words_bytes(m.y_axis.words()), 16).put(
        words_bytes(m.z_axis.words()),
        16,
    ).put(words_bytes(m.w_axis.words()), 16)
}

/// The state after writing each structure of `s` in order.
pub open spec fn put_structs<T: AsStd140Bytes>(v: Std140View, s: Seq<T>) -> Std140View
    decreases s.len(),
{
    if s.len() == 0 {
        v
    } else {
        put_structs(v, s.drop_last()).put_struct(s.last().std140())
    }
}

/// A byte buffer that lays values out by the std140-style GPU uniform rules:
/// scalars on 4 bytes, two-component vectors on 8, wider vectors and matrix
/// columns on 16, nested structures on their own largest alignment.
pub struct Std140Bytes {
    bytes: Vec<u8>,
    alignment: usize,
    writes: Ghost<Seq<Placement>>,
}

impl View for Std140Bytes {
    type V = Std140View;

    closed spec fn view(&self) -> Std140View {
        Std140View { bytes: self.bytes@, alignment: self.alignment as nat, writes: self.writes@ }
    }
}

/// A value that has a std140 serialized form.
pub trait AsStd140Bytes {
    /// The serialized form of `self`.
    spec fn std140(&self) -> Std140View;

    fn as_std140(&self) -> (r: Std140Bytes)
        ensures
            r@ == self.std140(),
            r@.wf(),
    ;
}

proof fn lemma_words_bytes_push(ws: Seq<u32>, w: u32)
    ensures
        words_bytes(ws.push(w)) == words_bytes(ws) + le_bytes(w),
{
    assert(ws.push(w).drop_last() =~= ws);
}

proof fn lemma_words_bytes_one(w: u32)
    ensures
        words_bytes(seq![w]) == le_bytes(w),
{
    reveal_with_fuel(words_bytes, 2);
    assert(seq![w].drop_last() =~= Seq::<u32>::empty());
    assert(Seq::<u8>::empty() + le_bytes(w) =~= le_bytes(w));
}

proof fn lemma_max_align_push(ws: Seq<Placement>, p: Placement)
    ensures
        max_align(ws.push(p)) == if p.align > max_align(ws) {
            p.align
        } else {
            max_align(ws)
        },
{
    assert(ws.push(p).drop_last() =~= ws);
}

proof fn lemma_max_align_append(ws: Seq<Placement>, vs: Seq<Placement>)
    ensures
        max_align(ws + vs) == if max_align(vs) > max_align(ws) {
            max_align(vs)
        } else {
            max_align(ws)
        },
    decreases vs.len(),
{
    if vs.len() == 0 {
        assert(ws + vs =~= ws);
    } else {
        lemma_max_align_append(ws, vs.drop_last());
        assert((ws + vs).drop_last() =~= ws + vs.drop_last());
    }
}

proof fn lemma_max_align_shifted(ws: Seq<Placement>, by: nat)
    ensures
        max_align(shifted(ws, by)) == max_align(ws),
    decreases ws.len(),
{
    if ws.len() > 0 {
        lemma_max_align_shifted(ws.drop_last(), by);
        assert(shifted(ws, by).drop_last() =~= shifted(ws.drop_last(), by));
    }
}

proof fn lemma_max_align_bounds(ws: Seq<Placement>)
    ensures
        forall|i: int| 0 <= i < ws.len() ==> #[trigger] ws[i].align <= max_align(ws),
    decreases ws.len(),
{
    if ws.len() > 0 {
        lemma_max_align_bounds(ws.drop_last());
        assert forall|i: int| 0 <= i < ws.len() implies #[trigger] ws[i].align <= max_align(ws) by {
            if i < ws.len() - 1 {
                assert(ws[i] == ws.drop_last()[i]);
            }
        }
    }
}

/// A multiple of a larger layout alignment is a multiple of a smaller one.
proof fn lemma_align_divides(off: nat, rel: nat, a: nat, big: nat)
    requires
        is_layout_align(a),
        is_layout_align(big),
        0 < a <= big,
        off % big == 0,
        rel % a == 0,
    ensures
        (off + rel) % a == 0,
{
    if big == 8 {
        assert(off % 8 == 0);
    } else if big == 16 {
        assert(off % 16 == 0);
    }
    if a == 4 {
        assert(off % 4 == 0);
        assert(rel % 4 == 0);
        assert((off + rel) % 4 == 0);
    } else if a == 8 {
        assert(off % 8 == 0);
        assert(rel % 8 == 0);
        assert((off + rel) % 8 == 0);
    } else {
        assert(off % 16 == 0);
        assert(rel % 16 == 0);
        assert((off + rel) % 16 == 0);
    }
}

proof fn lemma_padding_aligns(len: nat, a: nat)
    requires
        a > 0,
    ensures
        (len + padding(len, a)) % a == 0,
        padding(len, a) < a,
{
    assert((len + padding(len, a)) % a == 0) by (nonlinear_arith)
        requires
            a > 0,
            padding(len, a) == ((a as int - len as int % a as int) % (a as int)) as nat,
    {
        let r = len % a;
        assert(len == a * (len / a) + r);
        if r == 0 {
            assert(padding(len, a) == 0);
        } else {
            assert(padding(len, a) == a - r);
            assert(len + padding(len, a) == a * (len / a + 1));
        }
    }
}

/// One more structure written after a run of them.
pub proof fn lemma_put_structs_step<T: AsStd140Bytes>(v: Std140View, s: Seq<T>, i: int)
    requires
        0 <= i < s.len(),
    ensures
        put_structs(v, s.subrange(0, i + 1)) == put_structs(v, s.subrange(0, i)).put_struct(
            s[i].std140(),
        ),
{
    assert(s.subrange(0, i + 1).drop_last() =~= s.subrange(0, i));
}

/// For every sequence of writes: each scalar, vector and matrix column
/// starts at a multiple of its own alignment (4, 8 or 16 bytes), no write
/// asks for more than the buffer's alignment, and padding the buffer to that
/// alignment leaves a length divisible by it.
pub proof fn lemma_alignment_invariant(v: Std140View)
    requires
        v.wf(),
    ensures
        forall|i: int|
            0 <= i < v.writes.len() ==> {
                &&& is_value_align(#[trigger] v.writes[i].align)
                &&& v.writes[i].offset % v.writes[i].align == 0
                &&& v.writes[i].align <= v.alignment
            },
        v.alignment > 0 ==> v.aligned().bytes.len() % v.alignment == 0,
        v.aligned().wf(),
{
    reveal(Std140View::with_bytes);
    reveal(Std140View::aligned);
    lemma_max_align_bounds(v.writes);
    if v.alignment > 0 {
        lemma_padding_aligns(v.bytes.len(), v.alignment);
    }
}

/// Writing a nested structure: its bytes start at the first multiple of its
/// alignment at or after the current end, only zero bytes fill the gap, and
/// the buffer's alignment becomes the larger of the two.
pub proof fn lemma_nested_write(v: Std140View, inner: Std140View)
    requires
        v.wf(),
        inner.wf(),
    ensures
        inner.alignment > 0 ==> v.next_offset(inner.alignment) % inner.alignment == 0,
        v.bytes.len() <= v.next_offset(inner.alignment) < v.bytes.len() + inner.alignment
            || inner.alignment == 0,
        v.put_struct(inner).bytes == v.bytes + zeros(
            (v.next_offset(inner.alignment) - v.bytes.len()) as nat,
        ) + inner.bytes,
        v.put_struct(inner).alignment == if inner.alignment > v.alignment {
            inner.alignment
        } else {
            v.alignment
        },
        v.put_struct(inner).wf(),
{
    reveal(Std140View::put_struct);
    reveal(Std140View::with_bytes);
    if inner.alignment > 0 {
        lemma_padding_aligns(v.bytes.len(), inner.alignment);
    }
    lemma_max_align_append(v.writes, shifted(inner.writes, v.next_offset(inner.alignment)));
    lemma_max_align_shifted(inner.writes, v.next_offset(inner.alignment));
    lemma_max_align_bounds(inner.writes);
    let off = v.next_offset(inner.alignment);
    let moved = shifted(inner.writes, off);
    let ws = v.put_struct(inner).writes;
    assert forall|j: int| 0 <= j < ws.len() implies #[trigger] ws[j].offset % ws[j].align == 0 by {
        if j < v.writes.len() {
            assert(ws[j] == v.writes[j]);
        } else {
            let k = j - v.writes.len();
            assert(ws[j] == moved[k]);
            let p = inner.writes[k];
            lemma_align_divides(off, p.offset, p.align, inner.alignment);
        }
    }
    assert forall|j: int| 0 <= j < ws.len() implies is_value_align(#[trigger] ws[j].align) by {
        if j < v.writes.len() {
            assert(ws[j] == v.writes[j]);
        } else {
            assert(ws[j] == moved[j - v.writes.len()]);
        }
    }
}

/// Appends the four little-endian bytes of `w`.
fn append_word(v: &mut Vec<u8>, w: u32)
    ensures
        final(v)@ == old(v)@ + le_bytes(w),
{
    v.push((w % 256) as u8);
    v.push(((w / 256) % 256) as u8);
    v.push(((w / 65536) % 256) as u8);
    v.push((w / 16777216) as u8);
    assert(final(v)@ =~= old(v)@ + le_bytes(w));
}

impl Std140Bytes {
    /// An empty buffer with no alignment yet.
    pub fn new() -> (r: Self)
        ensures
            r@ == Std140View::empty(),
            r@.wf(),
    {
        Std140Bytes { bytes: Vec::new(), alignment: 0, writes: Ghost(Seq::empty()) }
    }

    /// Pads with zeros up to the next multiple of `align` and folds `align`
    /// into the buffer's alignment.
    fn pad_for(&mut self, align: usize)
        requires
            is_layout_align(align as nat),
            old(self)@.wf(),
        ensures
            final(self)@ == (Std140View {
                writes: old(self)@.writes,
                ..old(self)@.with_bytes(Seq::empty(), align as nat)
            }),
            final(self)@.bytes.len() == old(self)@.next_offset(align as nat),
    {
        proof {
            reveal(Std140View::with_bytes);
            reveal(Std140View::aligned);
            reveal(Std140View::put);
            reveal(Std140View::put_struct);
        }
        if align > self.alignment {
            self.alignment = align;
        }
        let pad: usize = if align == 0 {
            0
        } else {
            (align - self.bytes.len() % align) % align
        };
        assert(pad == padding(old(self)@.bytes.len(), align as nat));
        let mut i: usize = 0;
        while i < pad
            invariant
                i <= pad,
                self.bytes@ == old(self)@.bytes + zeros(i as nat),
                self.alignment == (if align > old(self).alignment {
                    align
                } else {
                    old(self).alignment
                }),
                self.writes == old(self).writes,
            decreases pad - i,
        {
            self.bytes.push(0u8);
            i = i + 1;
            assert(self.bytes@ =~= old(self)@.bytes + zeros(i as nat));
        }
        assert(self@.bytes =~= old(self)@.bytes + zeros(padding(old(self)@.bytes.len(), align as nat))
            + Seq::<u8>::empty());
    }

    /// Places one value of alignment `align` whose 32-bit words are `words`.
    fn write_data(&mut self, words: &[u32], align: usize)
        requires
            align == 4 || align == 8 || align == 16,
            old(self)@.wf(),
        ensures
            final(self)@ == old(self)@.put(words_bytes(words@), align as nat),
            final(self)@.wf(),
    {
        proof {
            reveal(Std140View::with_bytes);
            reveal(Std140View::aligned);
            reveal(Std140View::put);
            reveal(Std140View::put_struct);
        }
        let ghost start = self@;
        self.pad_for(align);
        let ghost offset = self.bytes@.len();
        proof {
            lemma_padding_aligns(start.bytes.len(), align as nat);
            lemma_max_align_push(start.writes, Placement { offset, align: align as nat });
            self.writes@ = start.writes.push(Placement { offset, align: align as nat });
        }
        let mut i: usize = 0;
        while i < words.len()
            invariant
                i <= words@.len(),
                self.bytes@ == start.bytes + zeros(padding(start.bytes.len(), align as nat))
                    + words_bytes(words@.subrange(0, i as int)),
                self.alignment == (if align > start.alignment {
                    align as nat
                } else {
                    start.alignment
                }),
                self.writes@ == start.writes.push(Placement { offset, align: align as nat }),
                offset == start.next_offset(align as nat),
            decreases words.len() - i,
        {
            let ghost before = self.bytes@;
            append_word(&mut self.bytes, words[i]);
            proof {
                lemma_words_bytes_push(words@.subrange(0, i as int), words@[i as int]);
                assert(words@.subrange(0, i + 1) =~= words@.subrange(0, i as int).push(
                    words@[i as int],
                ));
            }
            i = i + 1;
        }
        assert(words@.subrange(0, words@.len() as int) =~= words@);
        assert(self@ == start.put(words_bytes(words@), align as nat));
        assert(self@.wf()) by {
            let ws = self@.writes;
            assert forall|j: int| 0 <= j < ws.len() implies #[trigger] ws[j].offset % ws[j].align
                == 0 by {
                if j < start.writes.len() {
                    assert(ws[j] == start.writes[j]);
                }
            }
            assert forall|j: int| 0 <= j < ws.len() implies is_value_align(
                #[trigger] ws[j].align,
            ) by {
                if j < start.writes.len() {
                    assert(ws[j] == start.writes[j]);
                }
            }
        }
    }

    /// Places a nested structure's bytes at the next multiple of its
    /// alignment and folds that alignment into this buffer's.
    fn write_slice(&mut self, inner: &Std140Bytes)
        requires
            old(self)@.wf(),
            inner@.wf(),
        ensures
            final(self)@ == old(self)@.put_struct(inner@),
            final(self)@.wf(),
    {
        proof {
            reveal(Std140View::with_bytes);
            reveal(Std140View::aligned);
            reveal(Std140View::put);
            reveal(Std140View::put_struct);
        }
        let ghost start = self@;
        let a = inner.alignment;
        self.pad_for(a);
        let ghost offset = self.bytes@.len();
        let data = inner.as_slice();
        let mut i: usize = 0;
        while i < data.len()
            invariant
                i <= data@.len(),
                data@ == inner@.bytes,
                self.bytes@ == start.bytes + zeros(padding(start.bytes.len(), a as nat))
                    + data@.subrange(0, i as int),
                self.alignment == (if a > start.alignment {
                    a as nat
                } else {
                    start.alignment
                }),
                self.writes@ == start.writes,
            decreases data.len() - i,
        {
            self.bytes.push(data[i]);
            i = i + 1;
            assert(self.bytes@ =~= start.bytes + zeros(padding(start.bytes.len(), a as nat))
                + data@.subrange(0, i as int));
        }
        assert(data@.subrange(0, data@.len() as int) =~= data@);
        let ghost moved = shifted(inner@.writes, offset);
        proof {
            self.writes@ = start.writes + moved;
            lemma_max_align_append(start.writes, moved);
            lemma_max_align_shifted(inner@.writes, offset);
            lemma_max_align_bounds(inner@.writes);
        }
        assert(self@ == start.put_struct(inner@));
        assert(self@.wf()) by {
            let ws = self@.writes;
            assert forall|j: int| 0 <= j < ws.len() implies #[trigger] ws[j].offset % ws[j].align
                == 0 by {
                if j < start.writes.len() {
                    assert(ws[j] == start.writes[j]);
                } else {
                    let k = j - start.writes.len();
                    assert(ws[j] == moved[k]);
                    let p = inner@.writes[k];
                    assert(p.align <= a);
                    lemma_padding_aligns(start.bytes.len(), a as nat);
                    lemma_align_divides(offset, p.offset, p.align, a as nat);
                }
            }
            assert forall|j: int| 0 <= j < ws.len() implies is_value_align(
                #[trigger] ws[j].align,
            ) by {
                if j < start.writes.len() {
                    assert(ws[j] == start.writes[j]);
                } else {
                    assert(ws[j] == moved[j - start.writes.len()]);
                }
            }
        }
    }

    /// Writes a 32-bit unsigned scalar.
    pub fn write_u32(&mut self, data: u32) -> (r: &mut Self)
        requires
            old(self)@.wf(),
        ensures
            r@ == old(self)@.put(le_bytes(data), 4),
            r@.wf(),
            *final(self) == *final(r),
    {
        let words = [data];
        self.write_data(&words, 4);
        proof {
            assert(words@ =~= seq![data]);
            lemma_words_bytes_one(data);
        }
        self
    }

    /// Writes a 32-bit signed scalar in two's complement, aligned to 4 bytes.
    pub fn write_i32(&mut self, data: i32) -> (r: &mut Self)
        requires
            old(self)@.wf(),
        ensures
            r@ == old(self)@.put(le_bytes(i32_bits(data)), 4),
            r@.wf(),
            *final(self) == *final(r),
    {
        let bits = i32_to_bits(data);
        self.write_u32(bits)
    }

    /// Writes a 32-bit float given as its IEEE-754 bit pattern, aligned to 4
    /// bytes.
    pub fn write_f32(&mut self, data: u32) -> (r: &mut Self)
        requires
            old(self)@.wf(),
        ensures
            r@ == old(self)@.put(le_bytes(data), 4),
            r@.wf(),
            *final(self) == *final(r),
    {
        self.write_u32(data)
    }

    /// Writes a two-component unsigned vector, aligned to 8 bytes.
    pub fn write_uvec2(&mut self, data: UVec2) -> (r: &mut Self)
        requires
            old(self)@.wf(),
        ensures
            r@ == old(self)@.put(words_bytes(data.words()), 8),
            r@.wf(),
            *final(self) == *final(r),
    {
        let words = [data.x, data.y];
        proof {
            assert(words@ =~= data.words());
        }
        self.write_data(&words, 8);
        self
    }

    /// Writes a three-component unsigned vector, aligned to 16 bytes.
    pub fn write_uvec3(&mut self, data: UVec3) -> (r: &mut Self)
        requires
            old(self)@.wf(),
        ensures
            r@ == old(self)@.put(words_bytes(data.words()), 16),
            r@.wf(),
            *final(self) == *final(r),
    {
        let words = [data.x, data.y, data.z];
        proof {
            assert(words@ =~= data.words());
        }
        self.write_data(&words, 16);
        self
    }

    /// Writes a four-component unsigned vector, aligned to 16 bytes.
    pub fn write_uvec4(&mut self, data: UVec4) -> (r: &mut Self)
        requires
            old(self)@.wf(),
        ensures
            r@ == old(self)@.put(words_bytes(data.words()), 16),
            r@.wf(),
            *final(self) == *final(r),
    {
        let words = [data.x, data.y, data.z, data.w];
        proof {
            assert(words@ =~= data.words());
        }
        self.write_data(&words, 16);
        self
    }

    /// Writes a two-component signed vector, aligned to 8 bytes.
    pub fn write_ivec2(&mut self, data: IVec2) -> (r: &mut Self)
        requires
            old(self)@.wf(),
        ensures
            r@ == old(self)@.put(words_bytes(data.words()), 8),
            r@.wf(),
            *final(self) == *final(r),
    {
        let words = [i32_to_bits(data.x), i32_to_bits(data.y)];
        proof {
            assert(words@ =~= data.words());
        }
        self.write_data(&words, 8);
        self
    }

    /// Writes a three-component signed vector, aligned to 16 bytes.
    pub fn write_ivec3(&mut self, data: IVec3) -> (r: &mut Self)
        requires
            old(self)@.wf(),
        ensures
            r@ == old(self)@.put(words_bytes(data.words()), 16),
            r@.wf(),
            *final(self) == *final(r),
    {
        let words = [i32_to_bits(data.x), i32_to_bits(data.y), i32_to_bits(data.z)];
        proof {
            assert(words@ =~= data.words());
        }
        self.write_data(&words, 16);
        self
    }

    /// Writes a four-component signed vector, aligned to 16 bytes.
    pub fn write_ivec4(&mut self, data: IVec4) -> (r: &mut Self)
        requires
            old(self)@.wf(),
        ensures
            r@ == old(self)@.put(words_bytes(data.words()), 16),
            r@.wf(),
            *final(self) == *final(r),
    {
        let words = [i32_to_bits(data.x), i32_to_bits(data.y), i32_to_bits(data.z), i32_to_bits(data.w)];
        proof {
            assert(words@ =~= data.words());
        }
        self.write_data(&words, 16);
        self
    }

    /// Writes a two-component float vector, aligned to 8 bytes.
    pub fn write_vec2(&mut self, data: Vec2) -> (r: &mut Self)
        requires
            old(self)@.wf(),
        ensures
            r@ == old(self)@.put(words_bytes(data.words()), 8),
            r@.wf(),
            *final(self) == *final(r),
    {
        let words = [data.x, data.y];
        proof {
            assert(words@ =~= data.words());
        }
        self.write_data(&words, 8);
        self
    }

    /// Writes a three-component float vector, aligned to 16 bytes.
    pub fn write_vec3(&mut self, data: Vec3) -> (r: &mut Self)
        requires
            old(self)@.wf(),
        ensures
            r@ == old(self)@.put(words_bytes(data.words()), 16),
            r@.wf(),
            *final(self) == *final(r),
    {
        let words = [data.x, data.y, data.z];
        proof {
            assert(words@ =~= data.words());
        }
        self.write_data(&words, 16);
        self
    }

    /// Writes a four-component float vector, aligned to 16 bytes.
    pub fn write_vec4(&mut self, data: Vec4) -> (r: &mut Self)
        requires
            old(self)@.wf(),
        ensures
            r@ == old(self)@.put(words_bytes(data.words()), 16),
            r@.wf(),
            *final(self) == *final(r),
    {
        let words = [data.x, data.y, data.z, data.w];
        proof {
            assert(words@ =~= data.words());
        }
        self.write_data(&words, 16);
        self
    }

    /// Writes a 3x3 matrix as three columns, each aligned to 16 bytes.
    pub fn write_mat3(&mut self, data: Mat3) -> (r: &mut Self)
        requires
            old(self)@.wf(),
        ensures
            r@ == mat3_put(old(self)@, data),
            r@.wf(),
            *final(self) == *final(r),
    {
        self.write_vec3(data.x_axis);
        self.write_vec3(data.y_axis);
        self.write_vec3(data.z_axis);
        self
    }

    /// Writes a 4x4 matrix as four columns, each aligned to 16 bytes.
    pub fn write_mat4(&mut self, data: Mat4) -> (r: &mut Self)
        requires
            old(self)@.wf(),
        ensures
            r@ == mat4_put(old(self)@, data),
            r@.wf(),
            *final(self) == *final(r),
    {
        proof {
            reveal(mat4_put);
        }
        self.write_vec4(data.x_axis);
        self.write_vec4(data.y_axis);
        self.write_vec4(data.z_axis);
        self.write_vec4(data.w_axis);
        self
    }

    /// Writes a nested structure: its serialized bytes go at the next
    /// multiple of its own alignment, which this buffer's alignment takes in.
    pub fn write_struct<T: AsStd140Bytes>(&mut self, data: &T) -> (r: &mut Self)
        requires
            old(self)@.wf(),
        ensures
            r@ == old(self)@.put_struct(data.std140()),
            r@.wf(),
            *final(self) == *final(r),
    {
        let inner = data.as_std140();
        self.write_slice(&inner);
        self
    }

    /// Pads the whole buffer with zeros to a multiple of its alignment.
    pub fn align(&mut self) -> (r: &mut Self)
        requires
            old(self)@.wf(),
        ensures
            r@ == old(self)@.aligned(),
            r@.wf(),
            r@.alignment > 0 ==> r@.bytes.len() % r@.alignment == 0,
            *final(self) == *final(r),
    {
        proof {
            reveal(Std140View::with_bytes);
            reveal(Std140View::aligned);
            reveal(Std140View::put);
            reveal(Std140View::put_struct);
        }
        let a = self.alignment;
        let ghost start = self@;
        self.pad_for(a);
        proof {
            if a > 0 {
                lemma_padding_aligns(start.bytes.len(), a as nat);
            }
        }
        assert(self@ =~= start.aligned());
        self
    }

    /// The finished bytes.
    pub fn as_slice(&self) -> (r: &[u8])
        ensures
            r@ == self@.bytes,
    {
        self.bytes.as_slice()
    }
}

} // verus!
