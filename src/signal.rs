//! Bit layout of a CAN signal and the loading of frame payloads into a
//! 64-bit word.
use vstd::arithmetic::mul::lemma_mul_is_commutative;
use vstd::arithmetic::div_mod::{lemma_basic_div, lemma_breakdown, lemma_div_denominator, lemma_fundamental_div_mod, lemma_small_mod};
use vstd::arithmetic::power2::{
    lemma2_to64, lemma2_to64_rest, lemma_pow2_adds, lemma_pow2_pos, lemma_pow2_strictly_increases, pow2,
};
use vstd::bits::{low_bits_mask, lemma_u64_low_bits_mask_is_mod, lemma_u64_shl_is_mul, lemma_u64_shr_is_div};
use vstd::prelude::*;

verus! {

/// Order in which the payload bytes are assembled into the 64-bit word,
/// which also fixes the direction in which bit positions are counted.
#[derive(Clone, Copy, Debug, PartialEq, Eq, Structural)]
pub enum ByteOrder {
    BigEndian,
    LittleEndian,
}

/// Number of payload bytes that make up one frame word.
pub const FRAME_BYTES: usize = 8;

/// Value of a byte sequence read least significant byte first.
pub open spec fn le_value(s: Seq<u8>) -> nat
    decreases s.len(),
{
    if s.len() == 0 {
        0
    } else {
        s[0] as nat + 256 * le_value(s.drop_first())
    }
}

/// Value of a byte sequence read most significant byte first.
pub open spec fn be_value(s: Seq<u8>) -> nat
    decreases s.len(),
{
    if s.len() == 0 {
        0
    } else {
        be_value(s.drop_last()) * 256 + s.last() as nat
    }
}

/// The payload followed by zero bytes up to a full frame.
pub open spec fn padded(payload: Seq<u8>) -> Seq<u8> {
    payload + Seq::new((8 - payload.len()) as nat, |i: int| 0u8)
}

/// The frame word that a payload of at most eight bytes loads to.
pub open spec fn frame_word(payload: Seq<u8>, order: ByteOrder) -> nat {
    match order {
        ByteOrder::BigEndian => be_value(padded(payload)),
        ByteOrder::LittleEndian => le_value(padded(payload)),
    }
}

proof fn lemma_pow2_byte_step(n: nat)
    ensures
        pow2(8 * (n + 1)) == 256 * pow2(8 * n),
{
    lemma_pow2_adds(8 * n, 8);
    lemma2_to64();
    assert(8 * (n + 1) == 8 * n + 8) by (nonlinear_arith);
}

proof fn lemma_le_value_bound(s: Seq<u8>)
    ensures
        le_value(s) < pow2(8 * s.len()),
    decreases s.len(),
{
    if s.len() == 0 {
        lemma2_to64();
    } else {
        let r = s.drop_first();
        lemma_le_value_bound(r);
        lemma_pow2_byte_step(r.len());
        assert(8 * s.len() == 8 * (r.len() + 1));
    }
}

proof fn lemma_be_value_bound(s: Seq<u8>)
    ensures
        be_value(s) < pow2(8 * s.len()),
    decreases s.len(),
{
    if s.len() == 0 {
        lemma2_to64();
    } else {
        let r = s.drop_last();
        lemma_be_value_bound(r);
        lemma_pow2_byte_step(r.len());
        assert(8 * s.len() == 8 * (r.len() + 1));
    }
}

/// Copies the payload and appends zero bytes up to a full frame.
fn pad_payload(payload: &[u8]) -> (r: Vec<u8>)
    requires
        payload@.len() <= 8,
    ensures
        r@ == padded(payload@),
{
    let mut r: Vec<u8> = Vec::new();
    let mut i: usize = 0;
    while i < FRAME_BYTES
        invariant
            i <= 8,
            payload@.len() <= 8,
            r@.len() == i,
            forall|j: int| 0 <= j < i ==> r@[j] == padded(payload@)[j],
        decreases 8 - i,
    {
        if i < payload.len() {
            r.push(payload[i]);
        } else {
            r.push(0);
        }
        i += 1;
    }
    assert(r@ =~= padded(payload@));
    r
}

/// Loads a payload of at most eight bytes, padded with zeros on the
/// right, as an unsigned 64-bit word in the given byte order.
pub fn load_frame_word(payload: &[u8], order: ByteOrder) -> (w: u64)
    requires
        payload@.len() <= 8,
    ensures
        w as nat == frame_word(payload@, order),
{
    let buf = pad_payload(payload);
    let ghost b = buf@;
    let mut w: u64 = 0;
    match order {
        ByteOrder::BigEndian => {
            let mut k: usize = 0;
            while k < FRAME_BYTES
                invariant
                    k <= 8,
                    b.len() == 8,
                    buf@ == b,
                    w as nat == be_value(b.subrange(0, k as int)),
                decreases 8 - k,
            {
                proof {
                    lemma_be_value_bound(b.subrange(0, k as int));
                    lemma_pow2_byte_step(k as nat);
                    lemma_pow2_byte_step(7);
                    if k < 7 {
                        lemma_pow2_strictly_increases(8 * (k as nat + 1), 64);
                    }
                    lemma2_to64_rest();
                    assert(b.subrange(0, k + 1).drop_last() =~= b.subrange(0, k as int));
                }
                w = w * 256 + buf[k] as u64;
                k += 1;
            }
            assert(b.subrange(0, 8) =~= b);
        },
        ByteOrder::LittleEndian => {
            let mut k: usize = FRAME_BYTES;
            while k > 0
                invariant
                    k <= 8,
                    b.len() == 8,
                    buf@ == b,
                    w as nat == le_value(b.subrange(k as int, 8)),
                decreases k,
            {
                proof {
                    lemma_le_value_bound(b.subrange(k as int, 8));
                    lemma_pow2_byte_step((8 - k) as nat);
                    lemma_pow2_byte_step(7);
                    if k > 1 {
                        lemma_pow2_strictly_increases(8 * ((8 - k) as nat + 1), 64);
                    }
                    lemma2_to64_rest();
                    assert(b.subrange(k - 1, 8).drop_first() =~= b.subrange(k as int, 8));
                }
                w = w * 256 + buf[k - 1] as u64;
                k -= 1;
            }
            assert(b.subrange(0, 8) =~= b);
        },
    }
    w
}


/// Where one signal sits in the frame word: the bit position named by the
/// signal database, the number of bits, and the byte order.
#[derive(Clone, Copy, Debug, PartialEq, Eq, Structural)]
pub struct SignalLayout {
    pub start_bit: u64,
    pub bit_width: u64,
    pub byte_order: ByteOrder,
}

/// The field of `width` bits that starts `shift` bits above bit 0 of `word`.
pub open spec fn field_value(word: nat, shift: nat, width: nat) -> nat {
    (word / pow2(shift)) % pow2(width)
}

impl SignalLayout {
    /// Right shift that brings the field down to bit 0 of the frame word.
    /// Big-endian fields count `start_bit` from the most significant end;
    /// little-endian fields sit one bit above `start_bit`, as the signal
    /// database format numbers them.
    pub open spec fn shift(self) -> int {
        match self.byte_order {
            ByteOrder::BigEndian => 64 - (self.start_bit + 1 + self.bit_width),
            ByteOrder::LittleEndian => self.start_bit + 1,
        }
    }

    /// The shift is a valid shift of a 64-bit word and the width is at
    /// most 64 bits.
    pub open spec fn in_frame(self) -> bool {
        &&& self.bit_width <= 64
        &&& 0 <= self.shift() < 64
    }

    /// Raw field value of this signal in the given payload.
    pub open spec fn raw_in(self, payload: Seq<u8>) -> nat {
        field_value(frame_word(payload, self.byte_order), self.shift() as nat, self.bit_width as nat)
    }

    /// Decides `in_frame` without overflow.
    pub fn is_in_frame(&self) -> (r: bool)
        ensures
            r == self.in_frame(),
    {
        if self.bit_width > 64 || self.start_bit >= 64 {
            return false;
        }
        match self.byte_order {
            ByteOrder::BigEndian => self.start_bit + 1 + self.bit_width <= 64,
            ByteOrder::LittleEndian => self.start_bit + 1 < 64,
        }
    }

    /// The shift of an in-frame layout as a machine integer.
    fn shift_amount(&self) -> (s: u64)
        requires
            self.in_frame(),
        ensures
            s == self.shift(),
    {
        match self.byte_order {
            ByteOrder::BigEndian => 64 - (self.start_bit + 1 + self.bit_width),
            ByteOrder::LittleEndian => self.start_bit + 1,
        }
    }

    /// Extracts this signal's raw field from a frame word:
    /// `(word >> shift) & ((1 << bit_width) - 1)`.
    pub fn extract_field(&self, word: u64) -> (r: u64)
        requires
            self.in_frame(),
        ensures
            r as nat == field_value(word as nat, self.shift() as nat, self.bit_width as nat),
            (r as nat) < pow2(self.bit_width as nat),
    {
        let s = self.shift_amount();
        let shifted = word >> s;
        proof {
            lemma_u64_shr_is_div(word, s);
        }
        let w = self.bit_width;
        if w == 64 {
            proof {
                lemma2_to64_rest();
                lemma_small_mod(shifted as nat, pow2(64));
            }
            shifted
        } else {
            proof {
                lemma_pow2_pos(w as nat);
                lemma_pow2_strictly_increases(w as nat, 64);
                lemma2_to64_rest();
                lemma_u64_shl_is_mul(1, w);
                lemma_u64_low_bits_mask_is_mod(shifted, w as nat);
            }
            let mask: u64 = (1u64 << w) - 1;
            assert(mask == low_bits_mask(w as nat));
            shifted & mask
        }
    }

    /// Raw field of this signal in a payload of at most eight bytes.
    pub fn raw_value(&self, payload: &[u8]) -> (r: u64)
        requires
            self.in_frame(),
            payload@.len() <= 8,
        ensures
            r as nat == self.raw_in(payload@),
    {
        let word = load_frame_word(payload, self.byte_order);
        self.extract_field(word)
    }
}


proof fn lemma_le_value_push(s: Seq<u8>, b: u8)
    ensures
        le_value(s.push(b)) == le_value(s) + b as nat * pow2(8 * s.len()),
    decreases s.len(),
{
    if s.len() == 0 {
        lemma2_to64();
        assert(s.push(b).drop_first() =~= Seq::<u8>::empty());
        assert(s.push(b)[0] == b);
        assert(le_value(s.push(b).drop_first()) == 0);
        assert(le_value(s.push(b)) == b as nat);
        assert(s.len() == 0);
        assert(pow2(8 * s.len()) == 1);
    } else {
        let r = s.drop_first();
        lemma_le_value_push(r, b);
        assert(s.push(b).drop_first() =~= r.push(b));
        assert(s.push(b)[0] == s[0]);
        lemma_pow2_byte_step(r.len());
        assert(8 * s.len() == 8 * (r.len() + 1));
        let p = pow2(8 * r.len());
        assert(256 * (le_value(r) + b as nat * p) == 256 * le_value(r) + b as nat * (256 * p))
            by (nonlinear_arith);
        assert(le_value(s.push(b)) == s[0] as nat + 256 * le_value(r.push(b)));
        assert(le_value(s) == s[0] as nat + 256 * le_value(r));
        assert(pow2(8 * s.len()) == 256 * p);
    }
}

/// Splits `word / 2^m` into its lowest byte and the rest.
proof fn lemma_byte_split(word: nat, m: nat)
    ensures
        word % pow2(m + 8) == word % pow2(m) + pow2(m) * ((word / pow2(m)) % 256),
        word / pow2(m + 8) == (word / pow2(m)) / 256,
{
    lemma_pow2_pos(m);
    lemma_pow2_adds(m, 8);
    lemma2_to64();
    lemma_breakdown(word as int, pow2(m) as int, 256);
    lemma_div_denominator(word as int, pow2(m) as int, 256);
}

/// The eight bytes of a frame word laid out in the given byte order.
fn word_bytes(word: u64, order: ByteOrder) -> (r: Vec<u8>)
    ensures
        r@.len() == 8,
        frame_word(r@, order) == word as nat,
{
    let mut r: Vec<u8> = Vec::new();
    let mut i: usize = 0;
    proof {
        lemma2_to64();
        lemma2_to64_rest();
        lemma_basic_div(word as int, pow2(64) as int);
        assert(word as nat / pow2(0) == word as nat);
        assert(word as nat % pow2(0) == 0);
    }
    match order {
        ByteOrder::LittleEndian => {
            let mut w: u64 = word;
            while i < FRAME_BYTES
                invariant
                    i <= 8,
                    r@.len() == i,
                    w as nat == word as nat / pow2(8 * i as nat),
                    le_value(r@) == word as nat % pow2(8 * i as nat),
                decreases 8 - i,
            {
                proof {
                    lemma_le_value_push(r@, (w % 256) as u8);
                    lemma_byte_split(word as nat, 8 * i as nat);
                    assert(8 * (i + 1) as nat == 8 * i as nat + 8);
                    lemma_mul_is_commutative((w % 256) as int, pow2(8 * i as nat) as int);
                }
                r.push((w % 256) as u8);
                w = w / 256;
                i += 1;
            }
            proof {
                lemma2_to64_rest();
                lemma_small_mod(word as nat, pow2(64));
                assert(padded(r@) =~= r@);
                assert(le_value(r@) == word as nat);
            }
        },
        ByteOrder::BigEndian => {
            while i < FRAME_BYTES
                invariant
                    i <= 8,
                    r@.len() == i,
                    be_value(r@) == word as nat / pow2((64 - 8 * i) as nat),
                decreases 8 - i,
            {
                let m: u64 = 56 - 8 * i as u64;
                proof {
                    lemma_byte_split(word as nat, m as nat);
                    assert(m as nat + 8 == (64 - 8 * i) as nat);
                    lemma_u64_shr_is_div(word, m);
                    lemma_fundamental_div_mod((word as nat / pow2(m as nat)) as int, 256);
                    assert(r@.push(((word >> m) % 256) as u8).drop_last() =~= r@);
                }
                r.push(((word >> m) % 256) as u8);
                i += 1;
            }
            proof {
                lemma2_to64();
                assert(padded(r@) =~= r@);
                assert(be_value(r@) == word as nat / pow2(0));
            }
        },
    }
    r
}

/// The frame word that holds `raw` in the field of `layout` and zeros
/// everywhere else.
pub open spec fn encoded_word(layout: SignalLayout, raw: nat) -> nat {
    raw * pow2(layout.shift() as nat)
}

impl SignalLayout {
    /// A raw value that fits this layout's field and whose field lies
    /// wholly inside the frame word.
    pub open spec fn fits(self, raw: nat) -> bool {
        &&& self.in_frame()
        &&& raw < pow2(self.bit_width as nat)
        &&& encoded_word(self, raw) < pow2(64)
    }

    /// A frame of eight bytes that carries `raw` in this signal's field
    /// and zeros in every other bit.
    pub fn encode_raw(&self, raw: u64) -> (r: Vec<u8>)
        requires
            self.fits(raw as nat),
        ensures
            r@.len() == 8,
            frame_word(r@, self.byte_order) == encoded_word(*self, raw as nat),
    {
        let s = self.shift_amount();
        proof {
            lemma2_to64_rest();
        }
        let word = raw << s;
        proof {
            lemma_u64_shl_is_mul(raw, s);
        }
        word_bytes(word, self.byte_order)
    }
}

} // verus!
