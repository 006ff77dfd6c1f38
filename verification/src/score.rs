//! The score of the current life, the high score, and the text in which the
//! high score is stored.
//!
//! Reading and writing the store is the caller's part.  This module turns
//! the bytes that were read into a high score, and says on a loss which bytes
//! are to be written, if any.

use vstd::prelude::*;

verus! {

/// The byte of the digit zero.
pub const ZERO: u8 = 0x30;

/// The byte of the plus sign.
pub const PLUS: u8 = 0x2b;

/// The blanks of one byte: the space and the control characters from tab to
/// carriage return.
pub open spec fn is_blank(b: u8) -> bool {
    b == 0x20 || 0x09 <= b <= 0x0d
}

/// The blanks of two bytes: the next-line control (U+0085) and the no-break
/// space (U+00A0).
pub open spec fn is_blank_pair(a: u8, b: u8) -> bool {
    a == 0xc2 && (b == 0x85 || b == 0xa0)
}

/// The blanks of three bytes: the ogham space mark (U+1680), the spaces from
/// en quad to hair space (U+2000 to U+200A), the line and paragraph
/// separators (U+2028, U+2029), the narrow no-break space (U+202F), the
/// medium mathematical space (U+205F) and the ideographic space (U+3000).
pub open spec fn is_blank_triple(a: u8, b: u8, c: u8) -> bool {
    ||| a == 0xe1 && b == 0x9a && c == 0x80
    ||| a == 0xe2 && b == 0x80 && (0x80 <= c <= 0x8a || c == 0xa8 || c == 0xa9 || c == 0xaf)
    ||| a == 0xe2 && b == 0x81 && c == 0x9f
    ||| a == 0xe3 && b == 0x80 && c == 0x80
}

/// Whether `w` is one blank character: the bytes that stand for one white
/// space character in a text.
pub open spec fn is_blank_character(w: Seq<u8>) -> bool {
    ||| w.len() == 1 && is_blank(w[0])
    ||| w.len() == 2 && is_blank_pair(w[0], w[1])
    ||| w.len() == 3 && is_blank_triple(w[0], w[1], w[2])
}

/// How many bytes the blank character at the start of `s` takes, or zero if
/// `s` does not start with one.
pub open spec fn blank_width_at_start(s: Seq<u8>) -> int {
    if s.len() >= 1 && is_blank(s[0]) {
        1
    } else if s.len() >= 2 && is_blank_pair(s[0], s[1]) {
        2
    } else if s.len() >= 3 && is_blank_triple(s[0], s[1], s[2]) {
        3
    } else {
        0
    }
}

/// How many bytes the blank character at the end of `s` takes, or zero if
/// `s` does not end with one.
pub open spec fn blank_width_at_end(s: Seq<u8>) -> int {
    let n = s.len() as int;
    if n >= 1 && is_blank(s[n - 1]) {
        1
    } else if n >= 2 && is_blank_pair(s[n - 2], s[n - 1]) {
        2
    } else if n >= 3 && is_blank_triple(s[n - 3], s[n - 2], s[n - 1]) {
        3
    } else {
        0
    }
}

/// Whether `b` is one of the digits `0` to `9`.
pub open spec fn is_digit(b: u8) -> bool {
    ZERO <= b <= ZERO + 9
}

/// Whether every byte of `s` is a digit.
pub open spec fn all_digits(s: Seq<u8>) -> bool {
    forall|i: int| 0 <= i < s.len() ==> is_digit(#[trigger] s[i])
}

/// The number that a string of digits denotes, read in base ten.
pub open spec fn decimal_value(digits: Seq<u8>) -> nat
    decreases digits.len(),
{
    if digits.len() == 0 {
        0
    } else {
        decimal_value(digits.drop_last()) * 10 + (digits.last() - ZERO) as nat
    }
}

/// The digits of `n` in base ten, first digit first, with no leading zero
/// but for zero itself.
pub open spec fn decimal_text(n: nat) -> Seq<u8>
    decreases n,
{
    if n < 10 {
        seq![(ZERO + n) as u8]
    } else {
        decimal_text(n / 10).push((ZERO + n % 10) as u8)
    }
}

/// `s` without the blank characters at its start.
pub open spec fn without_leading_blanks(s: Seq<u8>) -> Seq<u8>
    decreases s.len(),
{
    if blank_width_at_start(s) > 0 {
        without_leading_blanks(s.skip(blank_width_at_start(s)))
    } else {
        s
    }
}

/// `s` without the blank characters at its end.
pub open spec fn without_trailing_blanks(s: Seq<u8>) -> Seq<u8>
    decreases s.len(),
{
    if blank_width_at_end(s) > 0 {
        without_trailing_blanks(s.take(s.len() - blank_width_at_end(s)))
    } else {
        s
    }
}

/// `s` without the blank characters at either end.
pub open spec fn trimmed(s: Seq<u8>) -> Seq<u8> {
    without_trailing_blanks(without_leading_blanks(s))
}

/// `s` without a plus sign at its start.
pub open spec fn unsigned(s: Seq<u8>) -> Seq<u8> {
    if s.len() > 0 && s[0] == PLUS {
        s.skip(1)
    } else {
        s
    }
}

/// The score that a stored text holds.
///
/// Blank characters at either end are ignored: every white space character
/// that a text can hold, in the bytes that stand for it.  What is left must
/// be one or more digits, with or without a plus sign in front, and must
/// denote a number that fits a score.  Any other text holds no score.
pub open spec fn stored_score(text: Seq<u8>) -> Option<u32> {
    let digits = unsigned(trimmed(text));
    if digits.len() > 0 && all_digits(digits) && decimal_value(digits) <= u32::MAX {
        Some(decimal_value(digits) as u32)
    } else {
        None
    }
}

/// A string of digits denotes at least what any of its prefixes denotes.
pub proof fn lemma_value_grows(digits: Seq<u8>, k: int)
    requires
        all_digits(digits),
        0 <= k <= digits.len(),
    ensures
        decimal_value(digits.take(k)) <= decimal_value(digits),
    decreases digits.len() - k,
{
    if k < digits.len() {
        lemma_value_grows(digits, k + 1);
        assert(digits.take(k + 1).drop_last() =~= digits.take(k));
    } else {
        assert(digits.take(k) =~= digits);
    }
}

/// Whether `b` is a blank of one byte.
pub fn blank(b: u8) -> (yes: bool)
    ensures
        yes == is_blank(b),
{
    b == 0x20 || (0x09 <= b && b <= 0x0d)
}

/// Whether the two bytes are a blank character.
pub fn blank_pair(a: u8, b: u8) -> (yes: bool)
    ensures
        yes == is_blank_pair(a, b),
{
    a == 0xc2 && (b == 0x85 || b == 0xa0)
}

/// Whether the three bytes are a blank character.
pub fn blank_triple(a: u8, b: u8, c: u8) -> (yes: bool)
    ensures
        yes == is_blank_triple(a, b, c),
{
    (a == 0xe1 && b == 0x9a && c == 0x80) || (a == 0xe2 && b == 0x80 && ((0x80 <= c && c <= 0x8a)
        || c == 0xa8 || c == 0xa9 || c == 0xaf)) || (a == 0xe2 && b == 0x81 && c == 0x9f) || (a
        == 0xe3 && b == 0x80 && c == 0x80)
}

/// The width of the blank character at the start of `text[from..to]`.
fn blank_width_after(text: &[u8], from: usize, to: usize) -> (width: usize)
    requires
        from <= to <= text@.len(),
    ensures
        width == blank_width_at_start(text@.subrange(from as int, to as int)),
        from + width <= to,
{
    let left: usize = to - from;
    if left >= 1 && blank(text[from]) {
        1
    } else if left >= 2 && blank_pair(text[from], text[from + 1]) {
        2
    } else if left >= 3 && blank_triple(text[from], text[from + 1], text[from + 2]) {
        3
    } else {
        0
    }
}

/// The width of the blank character at the end of `text[from..to]`.
fn blank_width_before(text: &[u8], from: usize, to: usize) -> (width: usize)
    requires
        from <= to <= text@.len(),
    ensures
        width == blank_width_at_end(text@.subrange(from as int, to as int)),
        from + width <= to,
{
    let left: usize = to - from;
    if left >= 1 && blank(text[to - 1]) {
        1
    } else if left >= 2 && blank_pair(text[to - 2], text[to - 1]) {
        2
    } else if left >= 3 && blank_triple(text[to - 3], text[to - 2], text[to - 1]) {
        3
    } else {
        0
    }
}

/// Reads the score that a stored text holds, if it holds one.
pub fn parse_score(text: &[u8]) -> (score: Option<u32>)
    ensures
        score == stored_score(text@),
{
    let n: usize = text.len();
    let mut start: usize = 0;
    let mut width: usize = blank_width_after(text, start, n);
    assert(text@.subrange(0, n as int) =~= text@);
    while width > 0
        invariant
            n == text@.len(),
            0 <= start <= n,
            start + width <= n,
            width == blank_width_at_start(text@.subrange(start as int, n as int)),
            without_leading_blanks(text@) == without_leading_blanks(
                text@.subrange(start as int, n as int),
            ),
        decreases n - start,
    {
        assert(text@.subrange(start as int, n as int).skip(width as int) =~= text@.subrange(
            start + width,
            n as int,
        ));
        start = start + width;
        width = blank_width_after(text, start, n);
    }
    let ghost body = text@.subrange(start as int, n as int);
    let mut end: usize = n;
    width = blank_width_before(text, start, end);
    while width > 0
        invariant
            n == text@.len(),
            start <= end <= n,
            start + width <= end,
            width == blank_width_at_end(text@.subrange(start as int, end as int)),
            without_trailing_blanks(body) == without_trailing_blanks(
                text@.subrange(start as int, end as int),
            ),
        decreases end,
    {
        assert(text@.subrange(start as int, end as int).take(end - start - width)
            =~= text@.subrange(start as int, end - width));
        end = end - width;
        width = blank_width_before(text, start, end);
    }
    let mut first: usize = start;
    if first < end && text[first] == PLUS {
        first = first + 1;
    }
    let ghost digits = text@.subrange(first as int, end as int);
    if first == end {
        return None;
    }
    let mut value: u64 = 0;
    let mut k: usize = first;
    while k < end
        invariant
            n == text@.len(),
            first <= k <= end <= n,
            digits == text@.subrange(first as int, end as int),
            digits == unsigned(trimmed(text@)),
            all_digits(digits.take(k - first)),
            value == decimal_value(digits.take(k - first)),
            value <= u32::MAX,
        decreases end - k,
    {
        let b: u8 = text[k];
        assert(b == digits[k - first]);
        if b < ZERO || b > ZERO + 9 {
            return None;
        }
        value = value * 10 + (b - ZERO) as u64;
        proof {
            let longer = digits.take(k - first + 1);
            assert(longer.drop_last() =~= digits.take(k - first));
            assert(all_digits(longer));
        }
        if value > u32::MAX as u64 {
            proof {
                if all_digits(digits) {
                    lemma_value_grows(digits, k - first + 1);
                }
            }
            return None;
        }
        k = k + 1;
    }
    assert(digits.take(k - first) =~= digits);
    Some(value as u32)
}

/// Appends the digits of `n` to `out`.
pub fn push_decimal(n: u32, out: &mut Vec<u8>)
    ensures
        final(out)@ == old(out)@ + decimal_text(n as nat),
    decreases n,
{
    if n >= 10 {
        push_decimal(n / 10, out);
    }
    out.push(ZERO + (n % 10) as u8);
}

/// The text in which a score is stored: its digits and nothing else.
pub fn encode_score(n: u32) -> (text: Vec<u8>)
    ensures
        text@ == decimal_text(n as nat),
{
    let mut text: Vec<u8> = Vec::new();
    push_decimal(n, &mut text);
    text
}

/// The digits of a number are digits, there is at least one, and read back
/// they denote the number.
pub proof fn lemma_decimal_text_denotes(n: nat)
    ensures
        decimal_text(n).len() > 0,
        all_digits(decimal_text(n)),
        decimal_value(decimal_text(n)) == n,
    decreases n,
{
    if n < 10 {
        let text = decimal_text(n);
        assert(decimal_value(text.drop_last()) == 0);
    } else {
        lemma_decimal_text_denotes(n / 10);
        let text = decimal_text(n);
        assert(text.drop_last() =~= decimal_text(n / 10));
        assert(all_digits(text));
    }
}

/// The digits of a number start with a zero only where the number is zero,
/// and then that zero is all there is.
pub proof fn lemma_decimal_text_has_no_leading_zero(n: nat)
    ensures
        n == 0 ==> decimal_text(n) == seq![ZERO],
        n > 0 ==> decimal_text(n)[0] != ZERO,
    decreases n,
{
    if n >= 10 {
        lemma_decimal_text_has_no_leading_zero(n / 10);
        lemma_decimal_text_denotes(n / 10);
    }
}

/// What is written for a score is read back as that score.
pub proof fn lemma_stored_text_reads_back(n: u32)
    ensures
        stored_score(decimal_text(n as nat)) == Some(n),
{
    lemma_decimal_text_denotes(n as nat);
}

/// A blank character behind a text changes nothing of what is left when the
/// text is trimmed.
proof fn lemma_trailing_blank_is_trimmed(text: Seq<u8>, blank: Seq<u8>)
    requires
        is_blank_character(blank),
    ensures
        trimmed(text + blank) == trimmed(text),
    decreases text.len(),
{
    let longer = text + blank;
    let width = blank_width_at_start(text);
    if text.len() == 0 {
        assert(longer =~= blank);
        assert(longer.skip(blank.len() as int) =~= text);
    } else if width > 0 {
        lemma_trailing_blank_is_trimmed(text.skip(width), blank);
        assert(blank_width_at_start(longer) == width);
        assert(longer.skip(width) =~= text.skip(width) + blank);
    } else {
        assert(blank_width_at_start(longer) == 0);
        assert(blank_width_at_end(longer) == blank.len());
        assert(longer.take(longer.len() - blank.len()) =~= text);
    }
}

/// A blank character in front of a stored text, or behind it, changes
/// nothing of what the text holds.
pub proof fn lemma_blank_characters_are_ignored(text: Seq<u8>, blank: Seq<u8>)
    requires
        is_blank_character(blank),
    ensures
        stored_score(text + blank) == stored_score(text),
        stored_score(blank + text) == stored_score(text),
{
    lemma_trailing_blank_is_trimmed(text, blank);
    assert(blank_width_at_start(blank + text) == blank.len());
    assert((blank + text).skip(blank.len() as int) =~= text);
}

/// A blank of one byte in front of a stored text, or behind it, changes
/// nothing of what the text holds.
pub proof fn lemma_blanks_are_ignored(text: Seq<u8>, b: u8)
    requires
        is_blank(b),
    ensures
        stored_score(text.push(b)) == stored_score(text),
        stored_score(seq![b] + text) == stored_score(text),
{
    lemma_blank_characters_are_ignored(text, seq![b]);
    assert(text + seq![b] =~= text.push(b));
}

/// The white space characters, by code point.
pub open spec fn is_white_space(v: u32) -> bool {
    ||| 0x09 <= v <= 0x0d
    ||| v == 0x20
    ||| v == 0x85
    ||| v == 0xa0
    ||| v == 0x1680
    ||| 0x2000 <= v <= 0x200a
    ||| v == 0x2028
    ||| v == 0x2029
    ||| v == 0x202f
    ||| v == 0x205f
    ||| v == 0x3000
}

/// The bytes that stand for a white space character, one by one.
proof fn lemma_white_space_bytes(v: u32)
    by (bit_vector)
    requires
        (0x09 <= v && v <= 0x0d) || v == 0x20 || v == 0x85 || v == 0xa0 || v == 0x1680 || (0x2000
            <= v && v <= 0x200a) || v == 0x2028 || v == 0x2029 || v == 0x202f || v == 0x205f || v
            == 0x3000,
    ensures
        v <= 0x7f ==> (v & 0x7F) as u8 == v,
        v == 0x85 || v == 0xa0 ==> 0xC0u8 | ((v >> 6) & 0x1F) as u8 == 0xc2 && 0x80u8 | (v
            & 0x3F) as u8 == v,
        v == 0x1680 ==> 0xE0u8 | ((v >> 12) & 0x0F) as u8 == 0xe1 && 0x80u8 | ((v >> 6)
            & 0x3F) as u8 == 0x9a && 0x80u8 | (v & 0x3F) as u8 == 0x80,
        0x2000 <= v && v <= 0x202f ==> 0xE0u8 | ((v >> 12) & 0x0F) as u8 == 0xe2 && 0x80u8 | ((v
            >> 6) & 0x3F) as u8 == 0x80 && 0x80u8 | (v & 0x3F) as u8 == v - 0x1f80,
        v == 0x205f ==> 0xE0u8 | ((v >> 12) & 0x0F) as u8 == 0xe2 && 0x80u8 | ((v >> 6)
            & 0x3F) as u8 == 0x81 && 0x80u8 | (v & 0x3F) as u8 == 0x9f,
        v == 0x3000 ==> 0xE0u8 | ((v >> 12) & 0x0F) as u8 == 0xe3 && 0x80u8 | ((v >> 6)
            & 0x3F) as u8 == 0x80 && 0x80u8 | (v & 0x3F) as u8 == 0x80,
{
}

/// Every white space character is written as a blank character.
pub proof fn lemma_white_space_is_blank(v: u32)
    requires
        is_white_space(v),
    ensures
        is_blank_character(vstd::utf8::encode_scalar(v)),
{
    lemma_white_space_bytes(v);
}

/// Every blank character is how some white space character is written.
pub proof fn lemma_blank_is_white_space(w: Seq<u8>)
    requires
        is_blank_character(w),
    ensures
        exists|v: u32| is_white_space(v) && #[trigger] vstd::utf8::encode_scalar(v) == w,
{
    let v: u32 = if w.len() == 1 {
        w[0] as u32
    } else if w.len() == 2 {
        w[1] as u32
    } else if w[0] == 0xe1 {
        0x1680
    } else if w[0] == 0xe3 {
        0x3000
    } else if w[1] == 0x81 {
        0x205f
    } else {
        (w[2] + 0x1f80) as u32
    };
    lemma_white_space_bytes(v);
    assert(vstd::utf8::encode_scalar(v) =~= w);
}

/// The score of the current life and the best score of all lives.
#[derive(Clone, Copy, Debug, PartialEq, Eq)]
pub struct ScoreLedger {
    pub score: u32,
    pub high_score: u32,
}

/// One step in the history of a ledger.
#[derive(Clone, Copy, Debug, PartialEq, Eq)]
pub enum LedgerStep {
    /// A hit worth this many points.
    Hit(u32),
    /// The start of a new life.
    Reset,
}

/// A score that stops at the largest value a score can hold.
pub open spec fn capped(points: int) -> u32 {
    if points > u32::MAX {
        u32::MAX
    } else {
        points as u32
    }
}

/// The higher of two scores.
pub open spec fn higher(a: u32, b: u32) -> u32 {
    if a > b {
        a
    } else {
        b
    }
}

/// The high score that a store holds.  A store that is absent, or whose
/// text holds no score, holds zero.
pub open spec fn high_score_in(stored: Option<&[u8]>) -> u32 {
    match stored {
        Some(text) => match stored_score(text@) {
            Some(n) => n,
            None => 0,
        },
        None => 0,
    }
}

/// The text of a write request as a sequence of bytes.
pub open spec fn text_of(write: Option<Vec<u8>>) -> Option<Seq<u8>> {
    match write {
        Some(bytes) => Some(bytes@),
        None => None,
    }
}

impl ScoreLedger {
    /// The score never stands above the high score.
    pub open spec fn settled(self) -> bool {
        self.score <= self.high_score
    }

    /// The ledger after a hit: the points are added to the score, which
    /// stops at the largest value it can hold, and the high score follows the
    /// score where the score has passed it.
    pub open spec fn after_hit(self, points: u32) -> ScoreLedger {
        let score = capped(self.score + points);
        ScoreLedger { score, high_score: higher(self.high_score, score) }
    }

    /// The ledger after the hits of one tick, taken in order.
    pub open spec fn after_hits(self, hits: Seq<u32>) -> ScoreLedger
        decreases hits.len(),
    {
        if hits.len() == 0 {
            self
        } else {
            self.after_hits(hits.drop_last()).after_hit(hits.last())
        }
    }

    /// The ledger at the start of a new life.
    pub open spec fn after_reset(self) -> ScoreLedger {
        ScoreLedger { score: 0, high_score: self.high_score }
    }

    /// The ledger after one step of its history.
    pub open spec fn after_step(self, step: LedgerStep) -> ScoreLedger {
        match step {
            LedgerStep::Hit(points) => self.after_hit(points),
            LedgerStep::Reset => self.after_reset(),
        }
    }

    /// The ledger after a whole history.
    pub open spec fn after_steps(self, steps: Seq<LedgerStep>) -> ScoreLedger
        decreases steps.len(),
    {
        if steps.len() == 0 {
            self
        } else {
            self.after_steps(steps.drop_last()).after_step(steps.last())
        }
    }

    /// What is to be written when a life ends: the score, if it stands at
    /// the high score, and nothing otherwise.
    pub open spec fn to_store(self) -> Option<Seq<u8>> {
        if self.score == self.high_score {
            Some(decimal_text(self.score as nat))
        } else {
            None
        }
    }

    /// A ledger at the start of a first life, with the high score that was
    /// loaded.
    pub fn new(high_score: u32) -> (ledger: ScoreLedger)
        ensures
            ledger == (ScoreLedger { score: 0, high_score }),
            ledger.settled(),
    {
        ScoreLedger { score: 0, high_score }
    }

    /// The high score that the store holds.  A store that is absent, or
    /// whose text holds no score, gives zero.
    pub fn load(stored: Option<&[u8]>) -> (high_score: u32)
        ensures
            high_score == high_score_in(stored),
    {
        match stored {
            Some(text) => match parse_score(text) {
                Some(n) => n,
                None => 0,
            },
            None => 0,
        }
    }

    /// Counts a hit.
    pub fn apply_hit(&mut self, points: u32)
        ensures
            *final(self) == old(self).after_hit(points),
            final(self).settled(),
    {
        self.score = self.score.saturating_add(points);
        if self.score > self.high_score {
            self.high_score = self.score;
        }
    }

    /// Counts the hits of one tick, in order.
    pub fn apply_hits(&mut self, hits: &Vec<u32>)
        ensures
            *final(self) == old(self).after_hits(hits@),
    {
        let mut i: usize = 0;
        while i < hits.len()
            invariant
                0 <= i <= hits@.len(),
                *self == old(self).after_hits(hits@.take(i as int)),
            decreases hits@.len() - i,
        {
            assert(hits@.take(i + 1).drop_last() =~= hits@.take(i as int));
            self.apply_hit(hits[i]);
            i = i + 1;
        }
        assert(hits@.take(i as int) =~= hits@);
    }

    /// Says what is to be written now that a life has ended.  The ledger
    /// itself does not change.
    pub fn on_loss(&self) -> (text: Option<Vec<u8>>)
        ensures
            text.is_some() == (self.score == self.high_score),
            text_of(text) == self.to_store(),
    {
        if self.score == self.high_score {
            Some(encode_score(self.score))
        } else {
            None
        }
    }

    /// Starts a new life: the score goes back to zero, the high score stays.
    pub fn reset_life(&mut self)
        ensures
            *final(self) == old(self).after_reset(),
            final(self).settled(),
    {
        self.score = 0;
    }
}

/// Within a life the score never goes down.
pub proof fn lemma_hit_never_lowers_score(ledger: ScoreLedger, points: u32)
    ensures
        ledger.after_hit(points).score >= ledger.score,
{
}

/// The high score never goes down, whatever hits and new lives follow, and
/// the score never stands above it once it did not.
pub proof fn lemma_high_score_never_falls(ledger: ScoreLedger, steps: Seq<LedgerStep>)
    ensures
        ledger.after_steps(steps).high_score >= ledger.high_score,
        ledger.settled() ==> ledger.after_steps(steps).settled(),
    decreases steps.len(),
{
    if steps.len() > 0 {
        lemma_high_score_never_falls(ledger, steps.drop_last());
    }
}

/// The hits of one tick lower neither the score nor the high score, and
/// leave the score no higher than the high score where it was not before.
pub proof fn lemma_hits_never_lower_high_score(ledger: ScoreLedger, hits: Seq<u32>)
    ensures
        ledger.after_hits(hits).high_score >= ledger.high_score,
        ledger.after_hits(hits).score >= ledger.score,
        ledger.settled() ==> ledger.after_hits(hits).settled(),
    decreases hits.len(),
{
    if hits.len() > 0 {
        lemma_hits_never_lower_high_score(ledger, hits.drop_last());
    }
}

/// The points of all the hits together.
pub open spec fn total(hits: Seq<u32>) -> nat
    decreases hits.len(),
{
    if hits.len() == 0 {
        0
    } else {
        total(hits.drop_last()) + hits.last() as nat
    }
}

/// However the hits of a tick are spread, the score goes up by their total,
/// as far as a score can go.  In a ledger whose score did not stand above
/// its high score, the high score ends at the higher of what it was and what
/// the score has become.
pub proof fn lemma_hits_add_up(ledger: ScoreLedger, hits: Seq<u32>)
    ensures
        ledger.after_hits(hits).score == capped(ledger.score + total(hits)),
        ledger.settled() ==> ledger.after_hits(hits).high_score == higher(
            ledger.high_score,
            ledger.after_hits(hits).score,
        ),
    decreases hits.len(),
{
    if hits.len() > 0 {
        lemma_hits_add_up(ledger, hits.drop_last());
    }
}

/// A ledger that writes its score on a loss reads the same score back as its
/// high score at the next start.
pub proof fn lemma_written_score_is_loaded(ledger: ScoreLedger)
    requires
        ledger.score == ledger.high_score,
    ensures
        ledger.to_store() matches Some(text) && stored_score(text) == Some(ledger.high_score),
{
    lemma_stored_text_reads_back(ledger.score);
}

} // verus!
