//! Bounded envelope inspection at the host/guest namespace boundary.
//!
//! Payload bytes stay opaque and borrowed. This is not an agent operation or payload validator:
//! future non-control names and unknown fields still pass.

use ciborium_ll::Decoder;
use ciborium_ll::Header;
use vstd::prelude::*;
use vstd::utf8::*;

use crate::text::utf8_text;
use crate::wire::be_value;

verus! {

/// Recursion bound of the envelope's values. Definite byte strings (including the payload) are
/// skipped in constant time.
pub const MAX_DEPTH: usize = 256;

/// Why an envelope must not reach the guest.
#[derive(Clone, Copy, Debug, PartialEq, Eq, Structural)]
pub enum Rejection {
    ControlNamespace,
    InvalidEnvelope,
}

/// The head of a CBOR item, as far as skipping and naming depend on it.
#[derive(Clone, Copy, Debug, PartialEq, Eq, Structural)]
pub enum CborHead {
    Tag,
    Break,
    /// A byte string of this length, or one in segments.
    Bytes(Option<usize>),
    /// A text of this many bytes, or one in segments.
    Text(Option<usize>),
    Items(Option<usize>),
    Pairs(Option<usize>),
    /// A number or a simple value: nothing follows its head.
    Other,
}

/// How many bytes follow the first byte of an item's head; nothing for a reserved code.
pub open spec fn argument_width(code: nat) -> Option<nat> {
    if code < 24 || code == 31 {
        Some(0)
    } else if code == 24 {
        Some(1)
    } else if code == 25 {
        Some(2)
    } else if code == 26 {
        Some(4)
    } else if code == 27 {
        Some(8)
    } else {
        None
    }
}

/// The head with this major type and argument; no argument means indefinite length or a break.
pub open spec fn head_of(major: nat, argument: Option<nat>) -> Option<CborHead> {
    let len = match argument {
        Some(n) => Some(n as usize),
        None => None,
    };
    if major <= 1 {
        if argument is Some {
            Some(CborHead::Other)
        } else {
            None
        }
    } else if major <= 5 && argument is Some && argument.unwrap() > usize::MAX {
        None
    } else if major == 2 {
        Some(CborHead::Bytes(len))
    } else if major == 3 {
        Some(CborHead::Text(len))
    } else if major == 4 {
        Some(CborHead::Items(len))
    } else if major == 5 {
        Some(CborHead::Pairs(len))
    } else if major == 6 {
        if argument is Some {
            Some(CborHead::Tag)
        } else {
            None
        }
    } else if argument is Some {
        Some(CborHead::Other)
    } else {
        Some(CborHead::Break)
    }
}

/// The item head at the front of `bytes` with its length, or nothing where there is none.
pub open spec fn cbor_head(bytes: Seq<u8>) -> Option<(CborHead, nat)> {
    if bytes.len() == 0 {
        None
    } else {
        let code = (bytes[0] % 32) as nat;
        match argument_width(code) {
            None => None,
            Some(width) => if bytes.len() < 1 + width {
                None
            } else {
                let argument = if code == 31 {
                    None
                } else if code < 24 {
                    Some(code)
                } else {
                    Some(be_value(bytes.subrange(1, 1 + width as int)))
                };
                match head_of((bytes[0] / 32) as nat, argument) {
                    None => None,
                    Some(head) => Some((head, 1 + width)),
                }
            },
        }
    }
}

/// `ciborium_ll::Decoder::pull` on a fresh decoder, with `Decoder::offset` behind it: the CBOR
/// item head at the front of the bytes and how many bytes it takes. It fails on an empty or
/// truncated head, on the reserved argument codes, on an indefinite number or tag, and on a length
/// beyond `usize`.
#[verifier::external_body]
fn pull_head(bytes: &[u8]) -> (head: Option<(CborHead, usize)>)
    ensures
        match cbor_head(bytes@) {
            None => head is None,
            Some((h, len)) => head matches Some((found, taken)) && found == h && taken == len,
        },
{
    let mut decoder = Decoder::from(bytes);
    let head = match decoder.pull() {
        Ok(Header::Positive(_) | Header::Negative(_)) => CborHead::Other,
        Ok(Header::Float(_) | Header::Simple(_)) => CborHead::Other,
        Ok(Header::Tag(_)) => CborHead::Tag,
        Ok(Header::Break) => CborHead::Break,
        Ok(Header::Bytes(len)) => CborHead::Bytes(len),
        Ok(Header::Text(len)) => CborHead::Text(len),
        Ok(Header::Array(len)) => CborHead::Items(len),
        Ok(Header::Map(len)) => CborHead::Pairs(len),
        Err(_) => return None,
    };
    Some((head, decoder.offset()))
}

/// What is left of `bytes` behind the first `n`.
pub open spec fn behind(bytes: Seq<u8>, n: nat) -> Seq<u8> {
    bytes.subrange(n as int, bytes.len() as int)
}

/// The first head that is no tag, within the recursion bound, and what follows it; or what is left
/// where reading stops.
pub open spec fn untagged_head(bytes: Seq<u8>, tries: nat) -> Result<(CborHead, Seq<u8>), Seq<u8>>
    decreases tries,
{
    if tries == 0 {
        Err(bytes)
    } else {
        match cbor_head(bytes) {
            None => Err(bytes),
            Some((head, len)) => if head == CborHead::Tag {
                untagged_head(behind(bytes, len), (tries - 1) as nat)
            } else {
                Ok((head, behind(bytes, len)))
            },
        }
    }
}

/// The content of a segmented text up to its break, and what follows it; or what is left where
/// reading stops. Every segment is a definite text of its own.
pub open spec fn text_segments(bytes: Seq<u8>) -> Result<(Seq<u8>, Seq<u8>), Seq<u8>>
    decreases bytes.len(),
{
    match cbor_head(bytes) {
        None => Err(bytes),
        Some((CborHead::Break, len)) => Ok((Seq::empty(), behind(bytes, len))),
        Some((CborHead::Text(Some(size)), len)) => {
            let body = behind(bytes, len);
            if size > body.len() {
                Err(body)
            } else if !valid_utf8(body.subrange(0, size as int)) {
                Err(behind(body, size as nat))
            } else {
                match text_segments(behind(body, size as nat)) {
                    Err(left) => Err(left),
                    Ok((content, rest)) => Ok((body.subrange(0, size as int) + content, rest)),
                }
            }
        },
        Some((_, len)) => Err(behind(bytes, len)),
    }
}

/// The content of the text at the front, tags skipped, and what follows it; or what is left where
/// reading stops.
pub open spec fn text_item(bytes: Seq<u8>) -> Result<(Seq<u8>, Seq<u8>), Seq<u8>> {
    match untagged_head(bytes, MAX_DEPTH as nat) {
        Err(left) => Err(left),
        Ok((CborHead::Text(Some(size)), body)) => if size > body.len() {
            Err(body)
        } else if !valid_utf8(body.subrange(0, size as int)) {
            Err(behind(body, size as nat))
        } else {
            Ok((body.subrange(0, size as int), behind(body, size as nat)))
        },
        Ok((CborHead::Text(None), body)) => text_segments(body),
        Ok((_, body)) => Err(body),
    }
}

/// What follows a segmented byte string or text, or what is left where reading stops.
pub open spec fn behind_segments(bytes: Seq<u8>, text: bool) -> Result<Seq<u8>, Seq<u8>>
    decreases bytes.len(),
{
    match cbor_head(bytes) {
        None => Err(bytes),
        Some((head, len)) => {
            let body = behind(bytes, len);
            let size = match head {
                CborHead::Bytes(Some(size)) if !text => Some(size),
                CborHead::Text(Some(size)) if text => Some(size),
                _ => None,
            };
            if head == CborHead::Break {
                Ok(body)
            } else if size is Some && size.unwrap() <= body.len() {
                behind_segments(behind(body, size.unwrap() as nat), text)
            } else {
                Err(body)
            }
        },
    }
}

/// What follows the item at the front of `bytes`, which stands at this depth, or what is left where
/// reading stops.
pub open spec fn behind_item(bytes: Seq<u8>, depth: nat) -> Result<Seq<u8>, Seq<u8>>
    decreases MAX_DEPTH - depth, bytes.len(), 0nat,
{
    if depth >= MAX_DEPTH {
        Err(bytes)
    } else {
        match cbor_head(bytes) {
            None => Err(bytes),
            Some((head, len)) => {
                let body = behind(bytes, len);
                match head {
                    CborHead::Bytes(Some(size)) => if size > body.len() {
                        Err(body)
                    } else {
                        Ok(behind(body, size as nat))
                    },
                    CborHead::Text(Some(size)) => if size > body.len() {
                        Err(body)
                    } else {
                        Ok(behind(body, size as nat))
                    },
                    CborHead::Bytes(None) => behind_segments(body, false),
                    CborHead::Text(None) => behind_segments(body, true),
                    CborHead::Items(items) => behind_items(body, opt_nat(items), depth, false),
                    CborHead::Pairs(items) => behind_items(body, opt_nat(items), depth, true),
                    CborHead::Tag => behind_item(body, depth + 1),
                    CborHead::Break => Err(body),
                    CborHead::Other => Ok(body),
                }
            },
        }
    }
}

pub open spec fn opt_nat(n: Option<usize>) -> Option<nat> {
    match n {
        Some(n) => Some(n as nat),
        None => None,
    }
}

/// One item less.
pub open spec fn one_less(remaining: Option<nat>) -> Option<nat> {
    match remaining {
        Some(n) => Some((n - 1) as nat),
        None => None,
    }
}

/// What follows this many items, or pairs of items, of a container at this depth; without a
/// number, what follows the break; or what is left where reading stops.
pub open spec fn behind_items(bytes: Seq<u8>, remaining: Option<nat>, depth: nat, map: bool) -> Result<
    Seq<u8>,
    Seq<u8>,
>
    decreases MAX_DEPTH - depth, bytes.len(), 1nat,
{
    if remaining == Some(0nat) {
        Ok(bytes)
    } else if remaining is None && bytes.len() > 0 && bytes[0] == 0xff {
        Ok(behind(bytes, 1))
    } else if depth >= MAX_DEPTH {
        Err(bytes)
    } else {
        match behind_item(bytes, depth + 1) {
            Err(left) => Err(left),
            Ok(rest) => {
                let after = if map {
                    behind_item(rest, depth + 1)
                } else {
                    Ok(rest)
                };
                match after {
                    Err(left) => Err(left),
                    Ok(rest) => if rest.len() < bytes.len() {
                        behind_items(rest, one_less(remaining), depth, map)
                    } else {
                        Err(rest)
                    },
                }
            },
        }
    }
}

/// The key of the message type.
pub open spec fn type_key() -> Seq<u8> {
    seq![0x74u8]
}

/// The namespace of host control messages.
pub open spec fn control_prefix() -> Seq<u8> {
    seq![0x63u8, 0x6f, 0x6e, 0x74, 0x72, 0x6f, 0x6c, 0x2e]
}

/// `text` begins with `prefix`.
pub open spec fn starts_with(text: Seq<u8>, prefix: Seq<u8>) -> bool {
    prefix.len() <= text.len() && text.subrange(0, prefix.len() as int) == prefix
}

/// The message type among the remaining entries of the envelope's map, given the type found so
/// far, and what follows the map.
pub open spec fn envelope_type(
    bytes: Seq<u8>,
    remaining: Option<nat>,
    found: Option<Seq<u8>>,
) -> Result<(Option<Seq<u8>>, Seq<u8>), Rejection>
    decreases bytes.len(),
{
    if remaining == Some(0nat) {
        Ok((found, bytes))
    } else if remaining is None && bytes.len() > 0 && bytes[0] == 0xff {
        Ok((found, behind(bytes, 1)))
    } else {
        match text_item(bytes) {
            Err(_) => Err(Rejection::InvalidEnvelope),
            Ok((key, value)) => if key == type_key() {
                if found is Some {
                    Err(Rejection::InvalidEnvelope)
                } else {
                    match text_item(value) {
                        Err(_) => Err(Rejection::InvalidEnvelope),
                        Ok((name, rest)) => if starts_with(name, control_prefix()) {
                            Err(Rejection::ControlNamespace)
                        } else if rest.len() < bytes.len() {
                            envelope_type(rest, one_less(remaining), Some(name))
                        } else {
                            Err(Rejection::InvalidEnvelope)
                        },
                    }
                }
            } else {
                match behind_item(value, 0) {
                    Ok(rest) if rest.len() < bytes.len() => envelope_type(
                        rest,
                        one_less(remaining),
                        found,
                    ),
                    _ => Err(Rejection::InvalidEnvelope),
                }
            },
        }
    }
}

/// The message type of an envelope that may reach the guest, or why it may not.
pub open spec fn verdict(bytes: Seq<u8>) -> Result<Seq<u8>, Rejection> {
    match untagged_head(bytes, MAX_DEPTH as nat) {
        Ok((CborHead::Pairs(entries), body)) => match envelope_type(body, opt_nat(entries), None) {
            Err(rejection) => Err(rejection),
            Ok((Some(name), rest)) if rest.len() == 0 => Ok(name),
            Ok(_) => Err(Rejection::InvalidEnvelope),
        },
        _ => Err(Rejection::InvalidEnvelope),
    }
}

proof fn lemma_head_len(bytes: Seq<u8>)
    ensures
        cbor_head(bytes) matches Some((_, len)) ==> 1 <= len <= bytes.len(),
{
}

proof fn lemma_untagged_shrinks(bytes: Seq<u8>, tries: nat)
    ensures
        untagged_head(bytes, tries) matches Ok((_, rest)) ==> rest.len() < bytes.len(),
    decreases tries,
{
    if tries > 0 {
        if let Some((head, len)) = cbor_head(bytes) {
            lemma_untagged_shrinks(behind(bytes, len), (tries - 1) as nat);
        }
    }
}

proof fn lemma_text_segments_shrink(bytes: Seq<u8>)
    ensures
        text_segments(bytes) matches Ok((_, rest)) ==> rest.len() < bytes.len(),
    decreases bytes.len(),
{
    if let Some((CborHead::Text(Some(size)), len)) = cbor_head(bytes) {
        let body = behind(bytes, len);
        if size <= body.len() {
            lemma_text_segments_shrink(behind(body, size as nat));
        }
    }
}

proof fn lemma_text_shrinks(bytes: Seq<u8>)
    ensures
        text_item(bytes) matches Ok((_, rest)) ==> rest.len() < bytes.len(),
{
    lemma_untagged_shrinks(bytes, MAX_DEPTH as nat);
    if let Ok((_, body)) = untagged_head(bytes, MAX_DEPTH as nat) {
        lemma_text_segments_shrink(body);
    }
}

proof fn lemma_segments_shrink(bytes: Seq<u8>, text: bool)
    ensures
        behind_segments(bytes, text) matches Ok(rest) ==> rest.len() < bytes.len(),
    decreases bytes.len(),
{
    if let Some((head, len)) = cbor_head(bytes) {
        let body = behind(bytes, len);
        match head {
            CborHead::Bytes(Some(size)) => {
                if size <= body.len() {
                    lemma_segments_shrink(behind(body, size as nat), text);
                }
            },
            CborHead::Text(Some(size)) => {
                if size <= body.len() {
                    lemma_segments_shrink(behind(body, size as nat), text);
                }
            },
            _ => {},
        }
    }
}

proof fn lemma_item_shrinks(bytes: Seq<u8>, depth: nat)
    ensures
        behind_item(bytes, depth) matches Ok(rest) ==> rest.len() < bytes.len(),
    decreases MAX_DEPTH - depth, bytes.len(), 0nat,
{
    if depth < MAX_DEPTH {
        if let Some((head, len)) = cbor_head(bytes) {
            let body = behind(bytes, len);
            match head {
                CborHead::Bytes(None) => {
                    lemma_segments_shrink(body, false);
                },
                CborHead::Text(None) => {
                    lemma_segments_shrink(body, true);
                },
                CborHead::Items(items) => {
                    lemma_items_shrink(body, opt_nat(items), depth, false);
                },
                CborHead::Pairs(items) => {
                    lemma_items_shrink(body, opt_nat(items), depth, true);
                },
                CborHead::Tag => {
                    lemma_item_shrinks(body, depth + 1);
                },
                _ => {},
            }
        }
    }
}

proof fn lemma_items_shrink(bytes: Seq<u8>, remaining: Option<nat>, depth: nat, map: bool)
    ensures
        behind_items(bytes, remaining, depth, map) matches Ok(rest) ==> rest.len() <= bytes.len(),
    decreases MAX_DEPTH - depth, bytes.len(), 1nat,
{
    if remaining != Some(0nat) && depth < MAX_DEPTH {
        lemma_item_shrinks(bytes, depth + 1);
        if let Ok(rest) = behind_item(bytes, depth + 1) {
            if map {
                lemma_item_shrinks(rest, depth + 1);
                if let Ok(after) = behind_item(rest, depth + 1) {
                    lemma_items_shrink(after, one_less(remaining), depth, map);
                }
            } else {
                lemma_items_shrink(rest, one_less(remaining), depth, map);
            }
        }
    }
}

/// As far as both reach, `text` and `prefix` agree.
pub open spec fn agrees(text: Seq<u8>, prefix: Seq<u8>) -> bool {
    forall|i: int| 0 <= i < text.len() && i < prefix.len() ==> #[trigger] text[i] == prefix[i]
}

/// The length of a text, saturated just above the prefix that it is compared with.
pub open spec fn seen_len(text: Seq<u8>, prefix: Seq<u8>) -> nat {
    if text.len() > prefix.len() {
        prefix.len() + 1
    } else {
        text.len()
    }
}

/// Compare one more segment with the prefix, without building the whole text. Saturating the
/// length is enough for exact key matching.
fn match_segment(
    prefix: &[u8],
    matched: bool,
    seen: usize,
    segment: &[u8],
    Ghost(before): Ghost<Seq<u8>>,
) -> (result: (bool, usize))
    requires
        prefix@.len() < usize::MAX,
        matched == agrees(before, prefix@),
        seen == seen_len(before, prefix@),
    ensures
        result.0 == agrees(before + segment@, prefix@),
        result.1 == seen_len(before + segment@, prefix@),
{
    let ghost after = before + segment@;
    let room: usize = if seen < prefix.len() {
        prefix.len() - seen
    } else {
        0
    };
    let compared: usize = if segment.len() < room {
        segment.len()
    } else {
        room
    };
    let mut matched = matched;
    let mut i: usize = 0;
    let limit: usize = prefix.len();
    while i < compared
        invariant
            i <= compared <= room,
            limit == prefix@.len(),
            room > 0 ==> seen + room <= limit,
            compared <= segment@.len(),
            room > 0 ==> seen + room == prefix@.len() && seen == before.len(),
            after == before + segment@,
            matched == (agrees(before, prefix@) && forall|k: int|
                0 <= k < i ==> #[trigger] segment@[k] == prefix@[seen + k]),
        decreases compared - i,
    {
        matched = matched && prefix[seen + i] == segment[i];
        i = i + 1;
    }
    proof {
        if matched {
            assert forall|k: int| 0 <= k < after.len() && k < prefix@.len() implies #[trigger] after[k]
                == prefix@[k] by {
                if k >= before.len() {
                    assert(segment@[k - before.len()] == prefix@[seen + (k - before.len())]);
                } else {
                    assert(before[k] == prefix@[k]);
                }
            }
        }
        if agrees(after, prefix@) {
            assert forall|k: int| 0 <= k < before.len() && k < prefix@.len() implies #[trigger] before[k]
                == prefix@[k] by {
                assert(after[k] == prefix@[k]);
            }
            assert forall|k: int| 0 <= k < compared implies #[trigger] segment@[k] == prefix@[seen
                + k] by {
                assert(after[before.len() + k] == prefix@[before.len() + k]);
            }
        }
    }
    let total: usize = if segment.len() > prefix.len() + 1 - seen {
        prefix.len() + 1
    } else {
        seen + segment.len()
    };
    (matched, total)
}

/// What is left to read of an envelope.
pub struct Cursor<'a> {
    rest: &'a [u8],
}

impl<'a> Cursor<'a> {
    pub closed spec fn rest(&self) -> Seq<u8> {
        self.rest@
    }

    pub fn new(bytes: &'a [u8]) -> (cursor: Cursor<'a>)
        ensures
            cursor.rest() == bytes@,
    {
        Cursor { rest: bytes }
    }

    fn advance(&mut self, len: usize)
        requires
            len <= old(self).rest().len(),
        ensures
            final(self).rest() == behind(old(self).rest(), len as nat),
    {
        let all = self.rest;
        self.rest = vstd::slice::slice_subrange(all, len, all.len());
    }

    fn head(&mut self) -> (result: Result<CborHead, Rejection>)
        ensures
            match cbor_head(old(self).rest()) {
                None => result == Err::<CborHead, Rejection>(Rejection::InvalidEnvelope)
                    && final(self).rest() == old(self).rest(),
                Some((head, len)) => result == Ok::<CborHead, Rejection>(head)
                    && final(self).rest() == behind(old(self).rest(), len),
            },
    {
        match pull_head(self.rest) {
            None => Err(Rejection::InvalidEnvelope),
            Some((head, len)) => {
                self.advance(len);
                Ok(head)
            },
        }
    }

    /// Take the next `len` bytes.
    pub fn take(&mut self, len: usize) -> (result: Result<&'a [u8], Rejection>)
        ensures
            if len > old(self).rest().len() {
                &&& result matches Err(rejection)
                &&& rejection == Rejection::InvalidEnvelope
                &&& final(self).rest() == old(self).rest()
            } else {
                &&& result matches Ok(bytes)
                &&& bytes@ == old(self).rest().subrange(0, len as int)
                &&& final(self).rest() == behind(old(self).rest(), len as nat)
            },
    {
        if len > self.rest.len() {
            return Err(Rejection::InvalidEnvelope);
        }
        let all = self.rest;
        let bytes = vstd::slice::slice_subrange(all, 0, len);
        self.advance(len);
        Ok(bytes)
    }

    fn untagged(&mut self) -> (result: Result<CborHead, Rejection>)
        ensures
            match untagged_head(old(self).rest(), MAX_DEPTH as nat) {
                Err(left) => result == Err::<CborHead, Rejection>(Rejection::InvalidEnvelope)
                    && final(self).rest() == left,
                Ok((head, rest)) => result == Ok::<CborHead, Rejection>(head)
                    && final(self).rest() == rest,
            },
    {
        let mut tries: usize = 0;
        let ghost start = self.rest();
        while tries < MAX_DEPTH
            invariant
                tries <= MAX_DEPTH,
                start == old(self).rest(),
                untagged_head(start, MAX_DEPTH as nat) == untagged_head(
                    self.rest(),
                    (MAX_DEPTH - tries) as nat,
                ),
            decreases MAX_DEPTH - tries,
        {
            match self.head() {
                Err(rejection) => {
                    return Err(rejection);
                },
                Ok(head) => {
                    if head != CborHead::Tag {
                        return Ok(head);
                    }
                },
            }
            tries = tries + 1;
        }
        Err(Rejection::InvalidEnvelope)
    }

    /// Whether the next text begins with `prefix`, and its length, saturated just above the
    /// prefix's. Segments are compared one by one.
    fn text_prefix(&mut self, prefix: &[u8]) -> (result: Result<(bool, usize), Rejection>)
        requires
            prefix@.len() < usize::MAX,
        ensures
            match text_item(old(self).rest()) {
                Err(left) => result == Err::<(bool, usize), Rejection>(Rejection::InvalidEnvelope)
                    && final(self).rest() == left,
                Ok((text, rest)) => result == Ok::<(bool, usize), Rejection>(
                    (starts_with(text, prefix@), seen_len(text, prefix@) as usize),
                ) && final(self).rest() == rest,
            },
    {
        let head = match self.untagged() {
            Err(rejection) => {
                return Err(rejection);
            },
            Ok(head) => head,
        };
        let mut matched = true;
        let mut seen: usize = 0;
        let ghost mut text: Seq<u8> = Seq::empty();
        match head {
            CborHead::Text(Some(len)) => {
                let bytes = match self.take(len) {
                    Err(rejection) => {
                        return Err(rejection);
                    },
                    Ok(bytes) => bytes,
                };
                if utf8_text(bytes).is_none() {
                    return Err(Rejection::InvalidEnvelope);
                }
                let step = match_segment(prefix, matched, seen, bytes, Ghost(text));
                proof {
                    assert(text + bytes@ =~= bytes@);
                    text = bytes@;
                }
                matched = step.0;
                seen = step.1;
            },
            CborHead::Text(None) => {
                let ghost start = self.rest();
                assert(match text_segments(start) {
                    Err(_) => true,
                    Ok((content, rest)) => text + content =~= content,
                });
                loop
                    invariant_except_break
                        match text_segments(self.rest()) {
                            Err(left) => text_segments(start) == Err::<
                                (Seq<u8>, Seq<u8>),
                                Seq<u8>,
                            >(left),
                            Ok((content, rest)) => text_segments(start) == Ok::<
                                (Seq<u8>, Seq<u8>),
                                Seq<u8>,
                            >((text + content, rest)),
                        },
                    invariant
                        prefix@.len() < usize::MAX,
                        matched == agrees(text, prefix@),
                        seen == seen_len(text, prefix@),
                        text_item(old(self).rest()) == text_segments(start),
                    ensures
                        text_segments(start) == Ok::<(Seq<u8>, Seq<u8>), Seq<u8>>(
                            (text, self.rest()),
                        ),
                        matched == agrees(text, prefix@),
                        seen == seen_len(text, prefix@),
                    decreases self.rest().len(),
                {
                    proof {
                        lemma_head_len(self.rest());
                    }
                    let ghost here = self.rest();
                    match self.head() {
                        Ok(CborHead::Break) => {
                            assert(text + Seq::<u8>::empty() =~= text);
                            break;
                        },
                        Ok(CborHead::Text(Some(len))) => {
                            let bytes = match self.take(len) {
                                Err(rejection) => {
                                    return Err(rejection);
                                },
                                Ok(bytes) => bytes,
                            };
                            if utf8_text(bytes).is_none() {
                                return Err(Rejection::InvalidEnvelope);
                            }
                            let step = match_segment(prefix, matched, seen, bytes, Ghost(text));
                            matched = step.0;
                            seen = step.1;
                            proof {
                                if let Ok((content, _)) = text_segments(self.rest()) {
                                    assert(text + (bytes@ + content) =~= (text + bytes@) + content);
                                }
                                text = text + bytes@;
                            }
                        },
                        _ => {
                            return Err(Rejection::InvalidEnvelope);
                        },
                    }
                }
            },
            _ => {
                return Err(Rejection::InvalidEnvelope);
            },
        }
        proof {
            assert((matched && seen >= prefix@.len()) == starts_with(text, prefix@)) by {
                if matched && seen >= prefix@.len() {
                    assert(text.subrange(0, prefix@.len() as int) =~= prefix@);
                }
                if starts_with(text, prefix@) {
                    assert forall|i: int| 0 <= i < text.len() && i < prefix@.len() implies #[trigger] text[i]
                        == prefix@[i] by {
                        assert(text.subrange(0, prefix@.len() as int)[i] == text[i]);
                    }
                }
            }
        }
        Ok((matched && seen >= prefix.len(), seen))
    }

    fn skip_segments(&mut self, text: bool) -> (result: Result<(), Rejection>)
        ensures
            match behind_segments(old(self).rest(), text) {
                Err(left) => result == Err::<(), Rejection>(Rejection::InvalidEnvelope)
                    && final(self).rest() == left,
                Ok(rest) => result is Ok && final(self).rest() == rest,
            },
    {
        loop
            invariant
                behind_segments(self.rest(), text) == behind_segments(old(self).rest(), text),
            decreases self.rest().len(),
        {
            proof {
                lemma_head_len(self.rest());
            }
            let head = match self.head() {
                Err(rejection) => {
                    return Err(rejection);
                },
                Ok(head) => head,
            };
            let len: usize = match head {
                CborHead::Break => {
                    return Ok(());
                },
                CborHead::Bytes(Some(len)) => {
                    if text {
                        return Err(Rejection::InvalidEnvelope);
                    }
                    len
                },
                CborHead::Text(Some(len)) => {
                    if !text {
                        return Err(Rejection::InvalidEnvelope);
                    }
                    len
                },
                _ => {
                    return Err(Rejection::InvalidEnvelope);
                },
            };
            match self.take(len) {
                Err(rejection) => {
                    return Err(rejection);
                },
                Ok(_) => {},
            }
        }
    }

    fn skip(&mut self, depth: usize) -> (result: Result<(), Rejection>)
        requires
            depth <= MAX_DEPTH,
        ensures
            match behind_item(old(self).rest(), depth as nat) {
                Err(left) => result == Err::<(), Rejection>(Rejection::InvalidEnvelope)
                    && final(self).rest() == left,
                Ok(rest) => result is Ok && final(self).rest() == rest,
            },
        decreases MAX_DEPTH - depth, old(self).rest().len(), 0nat,
    {
        if depth == MAX_DEPTH {
            return Err(Rejection::InvalidEnvelope);
        }
        proof {
            lemma_head_len(self.rest());
        }
        let head = match self.head() {
            Err(rejection) => {
                return Err(rejection);
            },
            Ok(head) => head,
        };
        match head {
            CborHead::Bytes(Some(len)) => match self.take(len) {
                Err(rejection) => Err(rejection),
                Ok(_) => Ok(()),
            },
            CborHead::Text(Some(len)) => match self.take(len) {
                Err(rejection) => Err(rejection),
                Ok(_) => Ok(()),
            },
            CborHead::Bytes(None) => self.skip_segments(false),
            CborHead::Text(None) => self.skip_segments(true),
            CborHead::Items(len) => self.skip_container(len, depth, false),
            CborHead::Pairs(len) => self.skip_container(len, depth, true),
            CborHead::Tag => self.skip(depth + 1),
            CborHead::Break => Err(Rejection::InvalidEnvelope),
            CborHead::Other => Ok(()),
        }
    }

    /// Skip the items, or pairs of items, of a container at this depth.
    pub fn skip_container(&mut self, len: Option<usize>, depth: usize, map: bool) -> (result: Result<
        (),
        Rejection,
    >)
        requires
            depth < MAX_DEPTH,
        ensures
            match behind_items(old(self).rest(), opt_nat(len), depth as nat, map) {
                Err(left) => result == Err::<(), Rejection>(Rejection::InvalidEnvelope)
                    && final(self).rest() == left,
                Ok(rest) => result is Ok && final(self).rest() == rest,
            },
        decreases MAX_DEPTH - depth, old(self).rest().len(), 1nat,
    {
        let mut remaining = len;
        loop
            invariant
                depth < MAX_DEPTH,
                self.rest().len() <= old(self).rest().len(),
                behind_items(self.rest(), opt_nat(remaining), depth as nat, map) == behind_items(
                    old(self).rest(),
                    opt_nat(len),
                    depth as nat,
                    map,
                ),
            decreases self.rest().len(),
        {
            if let Some(n) = remaining {
                if n == 0 {
                    return Ok(());
                }
            } else if self.rest.len() > 0 && self.rest[0] == 0xff {
                self.advance(1);
                return Ok(());
            }
            let ghost here = self.rest();
            proof {
                lemma_item_shrinks(here, depth as nat + 1);
                if let Ok(rest) = behind_item(here, depth as nat + 1) {
                    lemma_item_shrinks(rest, depth as nat + 1);
                }
            }
            match self.skip(depth + 1) {
                Err(rejection) => {
                    return Err(rejection);
                },
                Ok(()) => {},
            }
            if map {
                match self.skip(depth + 1) {
                    Err(rejection) => {
                        return Err(rejection);
                    },
                    Ok(()) => {},
                }
            }
            if let Some(n) = remaining {
                remaining = Some(n - 1);
            }
        }
    }
}

/// Whether an envelope may reach the guest: one CBOR map with text keys, exactly one `t` among
/// them whose value is a text outside the host's control namespace, and nothing behind the map.
pub fn inspect(bytes: &[u8]) -> (result: Result<(), Rejection>)
    ensures
        match verdict(bytes@) {
            Ok(_) => result is Ok,
            Err(rejection) => result == Err::<(), Rejection>(rejection),
        },
{
    let name_key: [u8; 1] = [0x74];
    let namespace: [u8; 8] = [0x63, 0x6f, 0x6e, 0x74, 0x72, 0x6f, 0x6c, 0x2e];
    let mut input = Cursor::new(bytes);
    let mut remaining: Option<usize> = match input.untagged() {
        Ok(CborHead::Pairs(entries)) => entries,
        Ok(_) => {
            return Err(Rejection::InvalidEnvelope);
        },
        Err(rejection) => {
            return Err(rejection);
        },
    };
    assert(name_key@ =~= type_key());
    assert(namespace@ =~= control_prefix());
    let ghost body = input.rest();
    let ghost entries = opt_nat(remaining);
    let mut has_type = false;
    let ghost mut found: Option<Seq<u8>> = None;
    loop
        invariant_except_break
            envelope_type(input.rest(), opt_nat(remaining), found) == envelope_type(
                body,
                entries,
                None,
            ),
        invariant
            name_key@ == type_key(),
            namespace@ == control_prefix(),
            has_type == (found is Some),
            untagged_head(bytes@, MAX_DEPTH as nat) matches Ok((CborHead::Pairs(n), rest))
                && opt_nat(n) == entries && rest == body,
        ensures
            has_type == (found is Some),
            envelope_type(body, entries, None) == Ok::<(Option<Seq<u8>>, Seq<u8>), Rejection>(
                (found, input.rest()),
            ),
        decreases input.rest().len(),
    {
        if let Some(n) = remaining {
            if n == 0 {
                break;
            }
        } else if input.rest.len() > 0 && input.rest[0] == 0xff {
            input.advance(1);
            break;
        }
        let ghost here = input.rest();
        proof {
            lemma_text_shrinks(here);
        }
        let (is_type, len) = match input.text_prefix(name_key.as_slice()) {
            Err(rejection) => {
                return Err(rejection);
            },
            Ok(key) => key,
        };
        let ghost key = text_item(here)->Ok_0.0;
        let ghost value = input.rest();
        proof {
            assert((is_type && len == 1) == (key == type_key())) by {
                if is_type && len == 1 {
                    assert(key =~= key.subrange(0, 1));
                }
                if key == type_key() {
                    assert(key.subrange(0, 1) =~= key);
                }
            }
            lemma_text_shrinks(value);
            lemma_item_shrinks(value, 0);
        }
        if is_type && len == 1 {
            if has_type {
                return Err(Rejection::InvalidEnvelope);
            }
            has_type = true;
            match input.text_prefix(namespace.as_slice()) {
                Err(rejection) => {
                    return Err(rejection);
                },
                Ok((in_namespace, _)) => {
                    if in_namespace {
                        return Err(Rejection::ControlNamespace);
                    }
                },
            }
            proof {
                found = Some(text_item(value)->Ok_0.0);
            }
        } else {
            match input.skip(0) {
                Err(rejection) => {
                    return Err(rejection);
                },
                Ok(()) => {},
            }
        }
        if let Some(n) = remaining {
            remaining = Some(n - 1);
        }
    }
    if !has_type || input.rest.len() != 0 {
        return Err(Rejection::InvalidEnvelope);
    }
    Ok(())
}

/// No accepted envelope names a host control message.
pub proof fn accepted_name_is_outside_control(bytes: Seq<u8>)
    ensures
        verdict(bytes) matches Ok(name) ==> !starts_with(name, control_prefix()),
{
    if let Ok((CborHead::Pairs(entries), body)) = untagged_head(bytes, MAX_DEPTH as nat) {
        lemma_type_is_outside_control(body, opt_nat(entries), None);
    }
}

proof fn lemma_type_is_outside_control(
    bytes: Seq<u8>,
    remaining: Option<nat>,
    found: Option<Seq<u8>>,
)
    requires
        found matches Some(name) ==> !starts_with(name, control_prefix()),
    ensures
        envelope_type(bytes, remaining, found) matches Ok((Some(name), _)) ==> !starts_with(
            name,
            control_prefix(),
        ),
    decreases bytes.len(),
{
    let ended = remaining == Some(0nat) || (remaining is None && bytes.len() > 0 && bytes[0] == 0xff);
    if !ended {
        if let Ok((key, value)) = text_item(bytes) {
            if key == type_key() {
                if let Ok((name, rest)) = text_item(value) {
                    if rest.len() < bytes.len() && !starts_with(name, control_prefix()) {
                        lemma_type_is_outside_control(rest, one_less(remaining), Some(name));
                    }
                }
            } else {
                if let Ok(rest) = behind_item(value, 0) {
                    if rest.len() < bytes.len() {
                        lemma_type_is_outside_control(rest, one_less(remaining), found);
                    }
                }
            }
        }
    }
}

/// A head does not depend on what follows it.
proof fn lemma_head_extends(bytes: Seq<u8>, more: Seq<u8>)
    requires
        cbor_head(bytes) is Some,
    ensures
        cbor_head(bytes + more) == cbor_head(bytes),
        behind(bytes + more, cbor_head(bytes).unwrap().1) == behind(bytes, cbor_head(bytes).unwrap().1) + more,
{
    let width = argument_width((bytes[0] % 32) as nat)->0;
    assert((bytes + more)[0] == bytes[0]);
    assert((bytes + more).subrange(1, 1 + width as int) =~= bytes.subrange(1, 1 + width as int));
    assert(behind(bytes + more, cbor_head(bytes).unwrap().1) =~= behind(bytes, cbor_head(bytes).unwrap().1)
        + more);
}

/// Definite content does not depend on what follows it.
proof fn lemma_content_extends(bytes: Seq<u8>, more: Seq<u8>, size: nat)
    requires
        size <= bytes.len(),
    ensures
        (bytes + more).subrange(0, size as int) == bytes.subrange(0, size as int),
        behind(bytes + more, size) == behind(bytes, size) + more,
{
    assert((bytes + more).subrange(0, size as int) =~= bytes.subrange(0, size as int));
    assert(behind(bytes + more, size) =~= behind(bytes, size) + more);
}

proof fn lemma_untagged_extends(bytes: Seq<u8>, more: Seq<u8>, tries: nat)
    ensures
        untagged_head(bytes, tries) matches Ok((head, rest)) ==> untagged_head(bytes + more, tries)
            == Ok::<(CborHead, Seq<u8>), Seq<u8>>((head, rest + more)),
    decreases tries,
{
    if tries > 0 {
        if let Some((head, len)) = cbor_head(bytes) {
            lemma_head_extends(bytes, more);
            lemma_untagged_extends(behind(bytes, len), more, (tries - 1) as nat);
        }
    }
}

proof fn lemma_text_segments_extend(bytes: Seq<u8>, more: Seq<u8>)
    ensures
        text_segments(bytes) matches Ok((content, rest)) ==> text_segments(bytes + more) == Ok::<
            (Seq<u8>, Seq<u8>),
            Seq<u8>,
        >((content, rest + more)),
    decreases bytes.len(),
{
    if let Some((head, len)) = cbor_head(bytes) {
        lemma_head_extends(bytes, more);
        if let CborHead::Text(Some(size)) = head {
            let body = behind(bytes, len);
            if size <= body.len() {
                lemma_content_extends(body, more, size as nat);
                lemma_text_segments_extend(behind(body, size as nat), more);
            }
        }
    }
}

proof fn lemma_text_extends(bytes: Seq<u8>, more: Seq<u8>)
    ensures
        text_item(bytes) matches Ok((content, rest)) ==> text_item(bytes + more) == Ok::<
            (Seq<u8>, Seq<u8>),
            Seq<u8>,
        >((content, rest + more)),
{
    lemma_untagged_extends(bytes, more, MAX_DEPTH as nat);
    if let Ok((head, body)) = untagged_head(bytes, MAX_DEPTH as nat) {
        if let CborHead::Text(Some(size)) = head {
            if size <= body.len() {
                lemma_content_extends(body, more, size as nat);
            }
        }
        lemma_text_segments_extend(body, more);
    }
}

proof fn lemma_segments_extend(bytes: Seq<u8>, more: Seq<u8>, text: bool)
    ensures
        behind_segments(bytes, text) matches Ok(rest) ==> behind_segments(bytes + more, text)
            == Ok::<Seq<u8>, Seq<u8>>(rest + more),
    decreases bytes.len(),
{
    if let Some((head, len)) = cbor_head(bytes) {
        lemma_head_extends(bytes, more);
        let body = behind(bytes, len);
        let size = match head {
            CborHead::Bytes(Some(size)) if !text => Some(size),
            CborHead::Text(Some(size)) if text => Some(size),
            _ => None,
        };
        if let Some(size) = size {
            if size <= body.len() {
                lemma_content_extends(body, more, size as nat);
                lemma_segments_extend(behind(body, size as nat), more, text);
            }
        }
    }
}

proof fn lemma_item_extends(bytes: Seq<u8>, more: Seq<u8>, depth: nat)
    ensures
        behind_item(bytes, depth) matches Ok(rest) ==> behind_item(bytes + more, depth) == Ok::<
            Seq<u8>,
            Seq<u8>,
        >(rest + more),
    decreases MAX_DEPTH - depth, bytes.len(), 0nat,
{
    if depth < MAX_DEPTH {
        if let Some((head, len)) = cbor_head(bytes) {
            lemma_head_extends(bytes, more);
            let body = behind(bytes, len);
            match head {
                CborHead::Bytes(Some(size)) => {
                    if size <= body.len() {
                        lemma_content_extends(body, more, size as nat);
                    }
                },
                CborHead::Text(Some(size)) => {
                    if size <= body.len() {
                        lemma_content_extends(body, more, size as nat);
                    }
                },
                CborHead::Bytes(None) => {
                    lemma_segments_extend(body, more, false);
                },
                CborHead::Text(None) => {
                    lemma_segments_extend(body, more, true);
                },
                CborHead::Items(items) => {
                    lemma_items_extend(body, more, opt_nat(items), depth, false);
                },
                CborHead::Pairs(items) => {
                    lemma_items_extend(body, more, opt_nat(items), depth, true);
                },
                CborHead::Tag => {
                    lemma_item_extends(body, more, depth + 1);
                },
                _ => {},
            }
        }
    }
}

proof fn lemma_items_extend(
    bytes: Seq<u8>,
    more: Seq<u8>,
    remaining: Option<nat>,
    depth: nat,
    map: bool,
)
    ensures
        behind_items(bytes, remaining, depth, map) matches Ok(rest) ==> behind_items(
            bytes + more,
            remaining,
            depth,
            map,
        ) == Ok::<Seq<u8>, Seq<u8>>(rest + more),
    decreases MAX_DEPTH - depth, bytes.len(), 1nat,
{
    if remaining is None && bytes.len() > 0 && bytes[0] == 0xff {
        lemma_content_extends(bytes, more, 1);
    } else if remaining != Some(0nat) && depth < MAX_DEPTH {
        lemma_item_extends(bytes, more, depth + 1);
        lemma_item_shrinks(bytes, depth + 1);
        if let Ok(rest) = behind_item(bytes, depth + 1) {
            if bytes.len() > 0 {
                assert((bytes + more)[0] == bytes[0]);
            }
            if map {
                lemma_item_extends(rest, more, depth + 1);
                lemma_item_shrinks(rest, depth + 1);
                if let Ok(after) = behind_item(rest, depth + 1) {
                    lemma_items_extend(after, more, one_less(remaining), depth, map);
                }
            } else {
                lemma_items_extend(rest, more, one_less(remaining), depth, map);
            }
        }
    }
}

proof fn lemma_type_extends(
    bytes: Seq<u8>,
    more: Seq<u8>,
    remaining: Option<nat>,
    found: Option<Seq<u8>>,
)
    ensures
        match envelope_type(bytes, remaining, found) {
            Ok((name, rest)) => envelope_type(bytes + more, remaining, found) == Ok::<
                (Option<Seq<u8>>, Seq<u8>),
                Rejection,
            >((name, rest + more)),
            Err(Rejection::ControlNamespace) => envelope_type(bytes + more, remaining, found)
                == Err::<(Option<Seq<u8>>, Seq<u8>), Rejection>(Rejection::ControlNamespace),
            Err(Rejection::InvalidEnvelope) => true,
        },
    decreases bytes.len(),
{
    if remaining is None && bytes.len() > 0 && bytes[0] == 0xff {
        lemma_content_extends(bytes, more, 1);
    } else if remaining != Some(0nat) {
        lemma_text_extends(bytes, more);
        lemma_text_shrinks(bytes);
        if let Ok((key, value)) = text_item(bytes) {
            assert((bytes + more)[0] == bytes[0]);
            if key == type_key() {
                lemma_text_extends(value, more);
                lemma_text_shrinks(value);
                if let Ok((name, rest)) = text_item(value) {
                    if rest.len() < bytes.len() {
                        lemma_type_extends(rest, more, one_less(remaining), Some(name));
                    }
                }
            } else {
                lemma_item_extends(value, more, 0);
                lemma_item_shrinks(value, 0);
                if let Ok(rest) = behind_item(value, 0) {
                    if rest.len() < bytes.len() {
                        lemma_type_extends(rest, more, one_less(remaining), found);
                    }
                }
            }
        }
    }
}

/// An accepted envelope is whole: with anything behind it, it is no envelope.
pub proof fn extended_envelope_is_refused(bytes: Seq<u8>, more: Seq<u8>)
    requires
        verdict(bytes) is Ok,
        more.len() > 0,
    ensures
        verdict(bytes + more) == Err::<Seq<u8>, Rejection>(Rejection::InvalidEnvelope),
{
    lemma_untagged_extends(bytes, more, MAX_DEPTH as nat);
    if let Ok((CborHead::Pairs(entries), body)) = untagged_head(bytes, MAX_DEPTH as nat) {
        lemma_type_extends(body, more, opt_nat(entries), None);
    }
}

/// An accepted envelope is whole: without its end, wherever it is cut, it is no envelope.
pub proof fn truncated_envelope_is_refused(bytes: Seq<u8>, end: int)
    requires
        verdict(bytes) is Ok,
        0 <= end < bytes.len(),
    ensures
        verdict(bytes.subrange(0, end)) == Err::<Seq<u8>, Rejection>(Rejection::InvalidEnvelope),
{
    let front = bytes.subrange(0, end);
    let more = bytes.subrange(end, bytes.len() as int);
    assert(front + more =~= bytes);
    if verdict(front) is Ok {
        extended_envelope_is_refused(front, more);
    }
    lemma_untagged_extends(front, more, MAX_DEPTH as nat);
    if let Ok((CborHead::Pairs(entries), body)) = untagged_head(front, MAX_DEPTH as nat) {
        lemma_type_extends(body, more, opt_nat(entries), None);
    }
}

/// The keys of this many entries of an envelope's map, without a number those up to the break, and
/// what follows them. Every key is a text; the message type is a text too.
pub open spec fn envelope_keys(bytes: Seq<u8>, remaining: Option<nat>) -> Option<
    (Seq<Seq<u8>>, Seq<u8>),
>
    decreases bytes.len(),
{
    if remaining == Some(0nat) {
        Some((Seq::empty(), bytes))
    } else if remaining is None && bytes.len() > 0 && bytes[0] == 0xff {
        Some((Seq::empty(), behind(bytes, 1)))
    } else {
        match text_item(bytes) {
            Err(_) => None,
            Ok((key, value)) => {
                let rest = if key == type_key() {
                    match text_item(value) {
                        Err(_) => None,
                        Ok((_, rest)) => Some(rest),
                    }
                } else {
                    match behind_item(value, 0) {
                        Err(_) => None,
                        Ok(rest) => Some(rest),
                    }
                };
                match rest {
                    Some(rest) if rest.len() < bytes.len() => match envelope_keys(
                        rest,
                        one_less(remaining),
                    ) {
                        None => None,
                        Some((keys, behind_map)) => Some((seq![key] + keys, behind_map)),
                    },
                    _ => None,
                }
            },
        }
    }
}

/// How often the message type is given.
pub open spec fn type_count(keys: Seq<Seq<u8>>) -> nat
    decreases keys.len(),
{
    if keys.len() == 0 {
        0
    } else {
        type_count(keys.subrange(1, keys.len() as int)) + if keys[0] == type_key() {
            1nat
        } else {
            0nat
        }
    }
}

proof fn lemma_type_is_counted(bytes: Seq<u8>, remaining: Option<nat>, found: Option<Seq<u8>>)
    ensures
        envelope_type(bytes, remaining, found) matches Ok((name, rest)) ==> {
            &&& envelope_keys(bytes, remaining) matches Some((keys, behind_map))
            &&& behind_map == rest
            &&& name is Some ==> type_count(keys) + (if found is Some {
                1nat
            } else {
                0nat
            }) == 1
        },
    decreases bytes.len(),
{
    let ended = remaining == Some(0nat) || (remaining is None && bytes.len() > 0 && bytes[0] == 0xff);
    if !ended {
        if let Ok((key, value)) = text_item(bytes) {
            let rest = if key == type_key() {
                match text_item(value) {
                    Err(_) => None,
                    Ok((name, rest)) => Some((Some(name), rest)),
                }
            } else {
                match behind_item(value, 0) {
                    Err(_) => None,
                    Ok(rest) => Some((found, rest)),
                }
            };
            if let Some((name, rest)) = rest {
                if rest.len() < bytes.len() {
                    lemma_type_is_counted(rest, one_less(remaining), name);
                    if let Some((keys, _)) = envelope_keys(rest, one_less(remaining)) {
                        assert((seq![key] + keys).subrange(1, (seq![key] + keys).len() as int) =~= keys);
                    }
                }
            }
        }
    }
}

/// An accepted envelope is one map, tagged or not, with text keys and nothing behind it, which
/// gives the message type exactly once.
pub proof fn accepted_envelope_names_one_type(bytes: Seq<u8>)
    requires
        verdict(bytes) is Ok,
    ensures
        ({
            &&& untagged_head(bytes, MAX_DEPTH as nat) matches Ok((CborHead::Pairs(entries), body))
            &&& envelope_keys(body, opt_nat(entries)) matches Some((keys, behind_map))
            &&& behind_map.len() == 0
            &&& type_count(keys) == 1
        }),
{
    if let Ok((CborHead::Pairs(entries), body)) = untagged_head(bytes, MAX_DEPTH as nat) {
        lemma_type_is_counted(body, opt_nat(entries), None);
    }
}

/// No element stands at the recursion bound, whatever the bytes are: a container just above it that
/// is not at its end is refused where it begins.
pub proof fn nothing_stands_at_the_depth_bound(bytes: Seq<u8>, remaining: Option<nat>, map: bool)
    requires
        remaining != Some(0nat),
        !(remaining is None && bytes.len() > 0 && bytes[0] == 0xff),
    ensures
        behind_items(bytes, remaining, (MAX_DEPTH - 1) as nat, map) == Err::<Seq<u8>, Seq<u8>>(bytes),
{
    assert(behind_item(bytes, MAX_DEPTH as nat) == Err::<Seq<u8>, Seq<u8>>(bytes));
}

} // verus!
