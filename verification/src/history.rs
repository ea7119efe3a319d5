use vstd::prelude::*;
use vstd::string::*;
use vstd::utf8::*;
use crate::types::{EcLevel, level_code, level_from_code};

verus! {

/// The number of bytes of a history text that its label shows before it is cut short.
pub const LABEL_BYTES: usize = 16;

/// A saved QR entry: the text and the error-correction level, the level written
/// as its one-letter code ("L", "M", "Q" or "H").
#[derive(Clone, Debug)]
pub struct HistoryEntry {
    pub text: String,
    pub ec_level: String,
}

/// The content of a history entry.
pub struct HistoryRecord {
    pub text: Seq<char>,
    pub ec_level: Seq<char>,
}

impl View for HistoryEntry {
    type V = HistoryRecord;

    open spec fn view(&self) -> HistoryRecord {
        HistoryRecord { text: self.text@, ec_level: self.ec_level@ }
    }
}

/// The record that saving `text` at `level` writes.
pub open spec fn record_of(text: Seq<char>, level: EcLevel) -> HistoryRecord {
    HistoryRecord { text, ec_level: level_code(level) }
}

/// The last character boundary of `bytes` at or before byte `b` (0 when there is none before).
pub open spec fn last_boundary_at_or_before(bytes: Seq<u8>, b: int) -> int
    decreases b,
{
    if b <= 0 {
        0
    } else if is_char_boundary(bytes, b) {
        b
    } else {
        last_boundary_at_or_before(bytes, b - 1)
    }
}

/// The label the history list shows for a text: the text itself when its UTF-8
/// encoding has at most `LABEL_BYTES` bytes, else the longest prefix of it that
/// fits in `LABEL_BYTES` bytes (cut at the last character boundary at or before
/// byte `LABEL_BYTES`) followed by an ellipsis.
pub open spec fn label_of(text: Seq<char>) -> Seq<char> {
    let bytes = encode_utf8(text);
    if bytes.len() > LABEL_BYTES {
        decode_utf8(bytes.subrange(0, last_boundary_at_or_before(bytes, LABEL_BYTES as int))) + seq!['…']
    } else {
        text
    }
}

/// The cut is the last character boundary at or before byte `b`: a boundary, and no
/// boundary lies after it up to `b`.
pub proof fn lemma_last_boundary(bytes: Seq<u8>, b: int)
    requires
        valid_utf8(bytes),
        0 <= b <= bytes.len(),
    ensures
        0 <= last_boundary_at_or_before(bytes, b) <= b,
        is_char_boundary(bytes, last_boundary_at_or_before(bytes, b)),
        forall|j: int| last_boundary_at_or_before(bytes, b) < j <= b ==> !is_char_boundary(bytes, j),
    decreases b,
{
    if b > 0 && !is_char_boundary(bytes, b) {
        lemma_last_boundary(bytes, b - 1);
    }
}

/// Cutting a text after `n` characters splits its UTF-8 encoding in two, at a
/// character boundary.
proof fn lemma_prefix_boundary(t: Seq<char>, n: int)
    requires
        0 <= n <= t.len(),
    ensures
        encode_utf8(t) =~= encode_utf8(t.take(n)) + encode_utf8(t.skip(n)),
        is_char_boundary(encode_utf8(t), encode_utf8(t.take(n)).len() as int),
    decreases n,
{
    broadcast use encode_utf8_valid_utf8;

    if n == 0 {
        assert(t.take(0) =~= Seq::<char>::empty());
        assert(t.skip(0) =~= t);
        is_char_boundary_start_end_of_seq(encode_utf8(t));
    } else {
        let r = t.drop_first();
        lemma_prefix_boundary(r, n - 1);
        encode_utf8_first_scalar(t);
        assert(t.take(n).drop_first() =~= r.take(n - 1));
        assert(t.skip(n) =~= r.skip(n - 1));
        assert(t.take(n)[0] == t[0]);
        assert(pop_first_scalar(encode_utf8(t)) =~= encode_utf8(r));
    }
}

/// A non-empty text has a non-empty encoding.
proof fn lemma_encoding_nonempty(t: Seq<char>)
    requires
        t.len() > 0,
    ensures
        encode_utf8(t).len() > 0,
{
    encode_utf8_first_scalar(t);
}

/// The label is the text itself when the text fits in 16 bytes of UTF-8; otherwise it
/// is the longest prefix of the text whose UTF-8 encoding fits in 16 bytes, followed
/// by "…": that prefix fits, and one more character would not.
pub proof fn lemma_label_is_longest_fitting_prefix(text: Seq<char>)
    ensures
        encode_utf8(text).len() <= 16 ==> label_of(text) == text,
        encode_utf8(text).len() > 16 ==> exists|n: int|
            #![trigger text.take(n)]
            {
                &&& 0 <= n < text.len()
                &&& label_of(text) == text.take(n) + seq!['…']
                &&& encode_utf8(text.take(n)).len() <= 16
                &&& encode_utf8(text.take(n + 1)).len() > 16
            },
{
    broadcast use encode_utf8_valid_utf8;

    let bytes = encode_utf8(text);
    if bytes.len() > 16 {
        let cut = last_boundary_at_or_before(bytes, 16);
        lemma_last_boundary(bytes, 16);
        let pre = bytes.subrange(0, cut);
        let suf = bytes.subrange(cut, bytes.len() as int);
        decode_utf8_split(bytes, cut);
        valid_utf8_split(bytes, cut);
        encode_utf8_decode_utf8(text);
        decode_utf8_encode_utf8(pre);
        let p = decode_utf8(pre);
        let n = p.len() as int;
        assert(text =~= p + decode_utf8(suf));
        assert(text.take(n) =~= p);
        assert(encode_utf8(text.take(n)) == pre);
        if n == text.len() {
            assert(text.take(n) =~= text);
            assert(false);
        }
        lemma_prefix_boundary(text, n + 1);
        lemma_prefix_boundary(text.take(n + 1), n);
        assert(text.take(n + 1).take(n) =~= text.take(n));
        assert(text.take(n + 1).skip(n).len() == 1);
        lemma_encoding_nonempty(text.take(n + 1).skip(n));
        let next = encode_utf8(text.take(n + 1)).len() as int;
        assert(next > cut);
        if next <= 16 {
            assert(!is_char_boundary(bytes, next));
            assert(false);
        }
        assert(label_of(text) == text.take(n) + seq!['…']);
    }
}

/// When byte `LABEL_BYTES` starts a character, the label is exactly the first
/// `LABEL_BYTES` bytes and an ellipsis.
pub proof fn lemma_label_on_boundary(text: Seq<char>)
    requires
        encode_utf8(text).len() > LABEL_BYTES,
        is_char_boundary(encode_utf8(text), LABEL_BYTES as int),
    ensures
        label_of(text) == decode_utf8(encode_utf8(text).subrange(0, LABEL_BYTES as int)) + seq!['…'],
{
}

impl HistoryEntry {
    /// The entry that saving `text` at `level` records.
    pub fn new(text: &str, level: EcLevel) -> (res: HistoryEntry)
        ensures
            res@ == record_of(text@, level),
    {
        HistoryEntry { text: String::from_str(text), ec_level: String::from_str(level.code()) }
    }

    /// The level the entry's code stands for; an unknown code reads as `H`.
    pub fn level(&self) -> (res: EcLevel)
        ensures
            res == level_from_code(self.ec_level@),
    {
        EcLevel::from_code(self.ec_level.as_str())
    }

    /// The label the history list shows for this entry.
    pub fn label(&self) -> (res: String)
        ensures
            res@ == label_of(self.text@),
    {
        history_label(self.text.as_str())
    }
}

/// The label the history list shows for `text`: `text` itself when it has at most
/// `LABEL_BYTES` bytes, else its longest prefix of at most `LABEL_BYTES` bytes and "…".
pub fn history_label(text: &str) -> (res: String)
    ensures
        res@ == label_of(text@),
{
    if text.as_bytes().len() > LABEL_BYTES {
        proof {
            broadcast use encode_utf8_valid_utf8;
        }
        let mut cut: usize = LABEL_BYTES;
        while cut > 0 && !text.is_char_boundary(cut)
            invariant
                cut <= LABEL_BYTES,
                valid_utf8(text.spec_bytes()),
                last_boundary_at_or_before(text.spec_bytes(), LABEL_BYTES as int)
                    == last_boundary_at_or_before(text.spec_bytes(), cut as int),
            decreases cut,
        {
            cut = cut - 1;
        }
        let (head, _tail) = text.split_at(cut);
        proof {
            // the head's bytes are the bytes before the cut, and decoding its bytes gives it back
            encode_utf8_decode_utf8(head@);
            reveal_strlit("…");
            assert("…"@ =~= seq!['…']);
        }
        let mut label = String::from_str(head);
        label.append("…");
        label
    } else {
        String::from_str(text)
    }
}

} // verus!
