//! Signal database lookup and decoding of frame payloads into raw field
//! values.
use crate::signal::{encoded_word, field_value, frame_word, SignalLayout};
use vstd::arithmetic::div_mod::{lemma_div_multiples_vanish, lemma_small_mod};
use vstd::arithmetic::mul::lemma_mul_is_commutative;
use vstd::arithmetic::power2::{lemma_pow2_pos, pow2};
use vstd::prelude::*;

verus! {

/// Why a payload could not be decoded.
#[derive(Clone, Copy, Debug, PartialEq, Eq, Structural)]
pub enum DecodeError {
    /// No signal of that name is in the database.
    UnknownSignal,
    /// The payload is longer than one eight-byte frame.
    MalformedPayload,
    /// The signal's bit layout does not lie within the 64-bit frame word.
    FieldOutOfFrame,
}

/// The name-to-layout table that a sequence of named layouts builds when
/// inserted in order: a later entry replaces an earlier one of the same name.
pub open spec fn table_of(entries: Seq<(String, SignalLayout)>) -> Map<Seq<char>, SignalLayout>
    decreases entries.len(),
{
    if entries.len() == 0 {
        Map::empty()
    } else {
        table_of(entries.drop_last()).insert(entries.last().0@, entries.last().1)
    }
}

/// Outcome of decoding `payload` as the signal `name` of `table`.
pub open spec fn decode_result(table: Map<Seq<char>, SignalLayout>, name: Seq<char>, payload: Seq<u8>) -> Result<
    u64,
    DecodeError,
> {
    if !table.contains_key(name) {
        Err(DecodeError::UnknownSignal)
    } else if payload.len() > 8 {
        Err(DecodeError::MalformedPayload)
    } else if !table[name].in_frame() {
        Err(DecodeError::FieldOutOfFrame)
    } else {
        Ok(table[name].raw_in(payload) as u64)
    }
}

/// Read-only lookup from signal name to bit layout, and the decoder that
/// turns payloads into raw field values through it.
pub struct Decoder {
    signals: Vec<(String, SignalLayout)>,
}

proof fn lemma_table_last_match(entries: Seq<(String, SignalLayout)>, i: int, name: Seq<char>)
    requires
        0 <= i < entries.len(),
        entries[i].0@ == name,
        forall|j: int| i < j < entries.len() ==> entries[j].0@ != name,
    ensures
        table_of(entries).contains_key(name),
        table_of(entries)[name] == entries[i].1,
    decreases entries.len(),
{
    if i < entries.len() - 1 {
        let prefix = entries.drop_last();
        assert forall|j: int| i < j < prefix.len() implies prefix[j].0@ != name by {
            assert(prefix[j] == entries[j]);
        }
        lemma_table_last_match(prefix, i, name);
    }
}

proof fn lemma_table_no_match(entries: Seq<(String, SignalLayout)>, name: Seq<char>)
    requires
        forall|j: int| 0 <= j < entries.len() ==> entries[j].0@ != name,
    ensures
        !table_of(entries).contains_key(name),
    decreases entries.len(),
{
    if entries.len() > 0 {
        let prefix = entries.drop_last();
        assert forall|j: int| 0 <= j < prefix.len() implies prefix[j].0@ != name by {
            assert(prefix[j] == entries[j]);
        }
        lemma_table_no_match(prefix, name);
    }
}

/// Whether two strings hold the same characters.
fn same_text(a: &str, b: &str) -> (r: bool)
    ensures
        r == (a@ == b@),
{
    let n = a.unicode_len();
    if n != b.unicode_len() {
        return false;
    }
    let mut i: usize = 0;
    while i < n
        invariant
            n == a@.len(),
            n == b@.len(),
            i <= n,
            forall|j: int| 0 <= j < i ==> a@[j] == b@[j],
        decreases n - i,
    {
        if a.get_char(i) != b.get_char(i) {
            return false;
        }
        i += 1;
    }
    assert(a@ =~= b@);
    true
}

impl View for Decoder {
    type V = Map<Seq<char>, SignalLayout>;

    closed spec fn view(&self) -> Map<Seq<char>, SignalLayout> {
        table_of(self.signals@)
    }
}

impl Decoder {
    /// Builds the table from named layouts in order; where a name occurs
    /// more than once, the later layout wins.
    pub fn new(signals: Vec<(String, SignalLayout)>) -> (d: Decoder)
        ensures
            d@ == table_of(signals@),
    {
        Decoder { signals }
    }

    /// Adds or replaces the layout of one signal.
    pub fn insert(&mut self, name: String, layout: SignalLayout)
        ensures
            final(self)@ == old(self)@.insert(name@, layout),
    {
        let ghost before = self.signals@;
        self.signals.push((name, layout));
        proof {
            assert(self.signals@.drop_last() =~= before);
        }
    }

    /// The layout stored under `name`, if any.
    pub fn lookup(&self, name: &str) -> (r: Option<SignalLayout>)
        ensures
            r == (if self@.contains_key(name@) {
                Some(self@[name@])
            } else {
                None::<SignalLayout>
            }),
    {
        let mut i: usize = self.signals.len();
        while i > 0
            invariant
                i <= self.signals@.len(),
                forall|j: int| i <= j < self.signals@.len() ==> self.signals@[j].0@ != name@,
            decreases i,
        {
            if same_text(self.signals[i - 1].0.as_str(), name) {
                proof {
                    lemma_table_last_match(self.signals@, i - 1, name@);
                }
                return Some(self.signals[i - 1].1);
            }
            i -= 1;
        }
        proof {
            lemma_table_no_match(self.signals@, name@);
        }
        None
    }

    /// Decodes `msg` as the signal `signal_name`: looks up its layout, pads
    /// the payload with zeros to eight bytes, loads it in the signal's byte
    /// order and extracts the raw field.
    pub fn decode_message_by_name(&self, signal_name: &str, msg: &[u8]) -> (r: Result<u64, DecodeError>)
        ensures
            r == decode_result(self@, signal_name@, msg@),
    {
        let layout = match self.lookup(signal_name) {
            Some(l) => l,
            None => return Err(DecodeError::UnknownSignal),
        };
        if msg.len() > 8 {
            return Err(DecodeError::MalformedPayload);
        }
        if !layout.is_in_frame() {
            return Err(DecodeError::FieldOutOfFrame);
        }
        Ok(layout.raw_value(msg))
    }
}

/// Decoding is a function of the table's contents, the name and the
/// payload alone: two decoders that hold the same table give the same
/// outcome on the same name and payload.
pub proof fn decode_is_deterministic(a: Decoder, b: Decoder, name: Seq<char>, payload: Seq<u8>)
    requires
        a@ == b@,
    ensures
        decode_result(a@, name, payload) == decode_result(b@, name, payload),
{
}

/// A frame that carries `raw` in a signal's field, zeros elsewhere,
/// decodes by that signal's name to `raw`.
pub proof fn encode_then_decode(
    table: Map<Seq<char>, SignalLayout>,
    name: Seq<char>,
    raw: nat,
    frame: Seq<u8>,
)
    requires
        table.contains_key(name),
        table[name].fits(raw),
        frame.len() == 8,
        frame_word(frame, table[name].byte_order) == encoded_word(table[name], raw),
    ensures
        decode_result(table, name, frame) == Ok::<u64, DecodeError>(raw as u64),
{
    let l = table[name];
    let p = pow2(l.shift() as nat);
    lemma_pow2_pos(l.shift() as nat);
    lemma_mul_is_commutative(raw as int, p as int);
    lemma_div_multiples_vanish(raw as int, p as int);
    lemma_small_mod(raw, pow2(l.bit_width as nat));
    assert(field_value(encoded_word(l, raw), l.shift() as nat, l.bit_width as nat) == raw);
}

} // verus!
