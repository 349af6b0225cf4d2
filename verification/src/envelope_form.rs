//! What a client writes and what the inspection reads: encoded envelopes are read as they were
//! written.

use vstd::prelude::*;
use vstd::utf8::*;

use crate::envelope::behind;
use crate::envelope::behind_item;
use crate::envelope::behind_items;
use crate::envelope::behind_segments;
use crate::envelope::cbor_head;
use crate::envelope::control_prefix;
use crate::envelope::envelope_type;
use crate::envelope::opt_nat;
use crate::envelope::starts_with;
use crate::envelope::text_item;
use crate::envelope::untagged_head;
use crate::envelope::verdict;
use crate::envelope::CborHead;
use crate::envelope::Rejection;
use crate::wire::be_value;

verus! {

/// A value of an envelope's entry.
pub enum CborItem {
    /// A small number.
    Number(u8),
    Bytes(Seq<u8>),
    Text(Seq<u8>),
    Items(Seq<CborItem>),
    Pairs(Seq<(CborItem, CborItem)>),
    Tagged(u8, Box<CborItem>),
    /// Values without a number, up to a break.
    OpenItems(Seq<CborItem>),
    /// Pairs without a number, up to a break.
    OpenPairs(Seq<(CborItem, CborItem)>),
    /// A byte string, or a text, in segments.
    Segments { text: bool, parts: Seq<Seq<u8>> },
}

/// The head of a value with this major type and argument: one byte for small arguments, and four
/// bytes behind the first for others.
pub open spec fn head_bytes(major: u8, argument: nat) -> Seq<u8> {
    if argument < 24 {
        seq![(major * 32 + argument) as u8]
    } else {
        seq![
            (major * 32 + 26) as u8,
            (argument / 0x100_0000 % 0x100) as u8,
            (argument / 0x1_0000 % 0x100) as u8,
            (argument / 0x100 % 0x100) as u8,
            (argument % 0x100) as u8,
        ]
    }
}

/// The bytes of a value.
pub open spec fn encoded(item: CborItem) -> Seq<u8>
    decreases item,
{
    match item {
        CborItem::Number(n) => head_bytes(0, n as nat),
        CborItem::Bytes(bytes) => head_bytes(2, bytes.len()) + bytes,
        CborItem::Text(bytes) => head_bytes(3, bytes.len()) + bytes,
        CborItem::Items(items) => head_bytes(4, items.len()) + encoded_items(items),
        CborItem::Pairs(pairs) => head_bytes(5, pairs.len()) + encoded_pairs(pairs),
        CborItem::Tagged(tag, inner) => head_bytes(6, tag as nat) + encoded(*inner),
        CborItem::OpenItems(items) => seq![0x9fu8] + encoded_items(items) + seq![0xffu8],
        CborItem::OpenPairs(pairs) => seq![0xbfu8] + encoded_pairs(pairs) + seq![0xffu8],
        CborItem::Segments { text, parts } => seq![
            if text {
                0x7fu8
            } else {
                0x5fu8
            },
        ] + encoded_parts(text, parts) + seq![0xffu8],
    }
}

/// The bytes of several segments.
pub open spec fn encoded_parts(text: bool, parts: Seq<Seq<u8>>) -> Seq<u8>
    decreases parts.len(),
{
    if parts.len() == 0 {
        Seq::empty()
    } else {
        head_bytes(
            if text {
                3
            } else {
                2
            },
            parts[0].len(),
        ) + parts[0] + encoded_parts(text, parts.subrange(1, parts.len() as int))
    }
}

/// The bytes of several values.
pub open spec fn encoded_items(items: Seq<CborItem>) -> Seq<u8>
    decreases items,
{
    if items.len() == 0 {
        Seq::empty()
    } else {
        encoded(items[0]) + encoded_items(items.subrange(1, items.len() as int))
    }
}

/// The bytes of several pairs.
pub open spec fn encoded_pairs(pairs: Seq<(CborItem, CborItem)>) -> Seq<u8>
    decreases pairs,
{
    if pairs.len() == 0 {
        Seq::empty()
    } else {
        encoded(pairs[0].0) + encoded(pairs[0].1) + encoded_pairs(
            pairs.subrange(1, pairs.len() as int),
        )
    }
}

/// The value nests at most `levels` deep, and its lengths can be written.
pub open spec fn nests_within(item: CborItem, levels: nat) -> bool
    decreases item,
{
    match item {
        CborItem::Number(n) => true,
        CborItem::Bytes(bytes) => bytes.len() <= u32::MAX,
        CborItem::Text(bytes) => bytes.len() <= u32::MAX,
        CborItem::Items(items) => items.len() <= u32::MAX && (items.len() > 0 ==> levels > 0)
            && forall|i: int|
            0 <= i < items.len() ==> nests_within(#[trigger] items[i], (levels - 1) as nat),
        CborItem::Pairs(pairs) => pairs.len() <= u32::MAX && (pairs.len() > 0 ==> levels > 0)
            && forall|i: int|
            0 <= i < pairs.len() ==> nests_within((#[trigger] pairs[i]).0, (levels - 1) as nat)
                && nests_within(pairs[i].1, (levels - 1) as nat),
        CborItem::Tagged(_, inner) => levels > 0 && nests_within(*inner, (levels - 1) as nat),
        CborItem::OpenItems(items) => (items.len() > 0 ==> levels > 0) && forall|i: int|
            0 <= i < items.len() ==> nests_within(#[trigger] items[i], (levels - 1) as nat),
        CborItem::OpenPairs(pairs) => (pairs.len() > 0 ==> levels > 0) && forall|i: int|
            0 <= i < pairs.len() ==> nests_within((#[trigger] pairs[i]).0, (levels - 1) as nat)
                && nests_within(pairs[i].1, (levels - 1) as nat),
        CborItem::Segments { parts, .. } => forall|i: int|
            0 <= i < parts.len() ==> (#[trigger] parts[i]).len() <= u32::MAX,
    }
}

proof fn lemma_head_reads_back(major: u8, argument: nat, rest: Seq<u8>)
    requires
        major < 7,
        argument <= u32::MAX,
    ensures
        cbor_head(head_bytes(major, argument) + rest) == Some(
            (
                match major {
                    0 => CborHead::Other,
                    1 => CborHead::Other,
                    2 => CborHead::Bytes(Some(argument as usize)),
                    3 => CborHead::Text(Some(argument as usize)),
                    4 => CborHead::Items(Some(argument as usize)),
                    5 => CborHead::Pairs(Some(argument as usize)),
                    _ => CborHead::Tag,
                },
                head_bytes(major, argument).len(),
            ),
        ),
        behind(head_bytes(major, argument) + rest, head_bytes(major, argument).len()) == rest,
        argument as usize == argument,
{
    let head = head_bytes(major, argument);
    let bytes = head + rest;
    assert(behind(bytes, head.len()) =~= rest);
    assert(argument <= usize::MAX);
    if argument >= 24 {
        let field = bytes.subrange(1, 5);
        assert(field =~= seq![head[1], head[2], head[3], head[4]]);
        assert(field.drop_last() =~= seq![head[1], head[2], head[3]]);
        assert(field.drop_last().drop_last() =~= seq![head[1], head[2]]);
        assert(field.drop_last().drop_last().drop_last() =~= seq![head[1]]);
        assert(field.drop_last().drop_last().drop_last().drop_last() =~= Seq::<u8>::empty());
        assert(be_value(Seq::<u8>::empty()) == 0);
        assert(be_value(seq![head[1]]) == head[1]);
        assert(be_value(seq![head[1], head[2]]) == head[1] * 256 + head[2]);
        assert(be_value(seq![head[1], head[2], head[3]]) == (head[1] * 256 + head[2]) * 256
            + head[3]);
        assert(be_value(field) == argument);
    }
}

/// A value is skipped exactly: what follows it is what is left.
#[verifier::rlimit(60)]
pub proof fn values_are_skipped_whole(item: CborItem, depth: nat, rest: Seq<u8>)
    requires
        depth < 256,
        nests_within(item, (255 - depth) as nat),
    ensures
        behind_item(encoded(item) + rest, depth) == Ok::<Seq<u8>, Seq<u8>>(rest),
    decreases item,
{
    let bytes = encoded(item) + rest;
    match item {
        CborItem::Number(n) => {
            lemma_head_reads_back(0, n as nat, rest);
        },
        CborItem::Bytes(content) => {
            lemma_head_reads_back(2, content.len(), content + rest);
            assert(bytes =~= head_bytes(2, content.len()) + (content + rest));
            assert(behind(content + rest, content.len()) =~= rest);
        },
        CborItem::Text(content) => {
            lemma_head_reads_back(3, content.len(), content + rest);
            assert(bytes =~= head_bytes(3, content.len()) + (content + rest));
            assert(behind(content + rest, content.len()) =~= rest);
        },
        CborItem::Items(items) => {
            lemma_head_reads_back(4, items.len(), encoded_items(items) + rest);
            assert(bytes =~= head_bytes(4, items.len()) + (encoded_items(items) + rest));
            lemma_items_are_skipped(items, depth, rest);
        },
        CborItem::Pairs(pairs) => {
            lemma_head_reads_back(5, pairs.len(), encoded_pairs(pairs) + rest);
            assert(bytes =~= head_bytes(5, pairs.len()) + (encoded_pairs(pairs) + rest));
            lemma_pairs_are_skipped(pairs, depth, rest);
        },
        CborItem::Tagged(tag, inner) => {
            lemma_head_reads_back(6, tag as nat, encoded(*inner) + rest);
            assert(bytes =~= head_bytes(6, tag as nat) + (encoded(*inner) + rest));
            values_are_skipped_whole(*inner, depth + 1, rest);
        },
        CborItem::OpenItems(items) => {
            let body = encoded_items(items) + (seq![0xffu8] + rest);
            assert(bytes =~= seq![0x9fu8] + body);
            lemma_open_head(0x9f, body);
            lemma_open_items_are_skipped(items, depth, rest);
        },
        CborItem::OpenPairs(pairs) => {
            let body = encoded_pairs(pairs) + (seq![0xffu8] + rest);
            assert(bytes =~= seq![0xbfu8] + body);
            lemma_open_head(0xbf, body);
            lemma_open_pairs_are_skipped(pairs, depth, rest);
        },
        CborItem::Segments { text, parts } => {
            let body = encoded_parts(text, parts) + (seq![0xffu8] + rest);
            let first: u8 = if text {
                0x7f
            } else {
                0x5f
            };
            assert(bytes =~= seq![first] + body);
            lemma_open_head(first, body);
            lemma_segments_are_skipped(text, parts, rest);
        },
    }
}

/// A head without a number stands alone in its byte.
proof fn lemma_open_head(first: u8, body: Seq<u8>)
    requires
        first == 0x5f || first == 0x7f || first == 0x9f || first == 0xbf || first == 0xff,
    ensures
        cbor_head(seq![first] + body) == Some(
            (
                match first {
                    0x5f => CborHead::Bytes(None),
                    0x7f => CborHead::Text(None),
                    0x9f => CborHead::Items(None),
                    0xbf => CborHead::Pairs(None),
                    _ => CborHead::Break,
                },
                1nat,
            ),
        ),
        behind(seq![first] + body, 1) == body,
{
    assert(behind(seq![first] + body, 1) =~= body);
    assert((seq![first] + body)[0] == first);
}

proof fn lemma_segments_are_skipped(text: bool, parts: Seq<Seq<u8>>, rest: Seq<u8>)
    requires
        forall|i: int| 0 <= i < parts.len() ==> (#[trigger] parts[i]).len() <= u32::MAX,
    ensures
        behind_segments(encoded_parts(text, parts) + (seq![0xffu8] + rest), text) == Ok::<
            Seq<u8>,
            Seq<u8>,
        >(rest),
    decreases parts.len(),
{
    let end = seq![0xffu8] + rest;
    if parts.len() == 0 {
        assert(encoded_parts(text, parts) + end =~= end);
        lemma_open_head(0xff, rest);
    } else {
        let tail = parts.subrange(1, parts.len() as int);
        let after = encoded_parts(text, tail) + end;
        let part = parts[0];
        let major: u8 = if text {
            3
        } else {
            2
        };
        assert(encoded_parts(text, parts) + end =~= head_bytes(major, part.len()) + (part + after));
        lemma_head_reads_back(major, part.len(), part + after);
        assert(behind(part + after, part.len()) =~= after);
        assert forall|i: int| 0 <= i < tail.len() implies (#[trigger] tail[i]).len()
            <= u32::MAX by {
            assert(tail[i] == parts[i + 1]);
        }
        lemma_segments_are_skipped(text, tail, rest);
    }
}

proof fn lemma_open_items_are_skipped(items: Seq<CborItem>, depth: nat, rest: Seq<u8>)
    requires
        depth < 256,
        items.len() > 0 ==> depth < 255,
        forall|i: int|
            0 <= i < items.len() ==> nests_within(#[trigger] items[i], (254 - depth) as nat),
    ensures
        behind_items(encoded_items(items) + (seq![0xffu8] + rest), None, depth, false) == Ok::<
            Seq<u8>,
            Seq<u8>,
        >(rest),
    decreases items,
{
    let end = seq![0xffu8] + rest;
    if items.len() == 0 {
        assert(encoded_items(items) + end =~= end);
        assert(behind(end, 1) =~= rest);
    } else {
        let tail = items.subrange(1, items.len() as int);
        let bytes = encoded_items(items) + end;
        let after = encoded_items(tail) + end;
        assert(bytes =~= encoded(items[0]) + after);
        values_are_skipped_whole(items[0], depth + 1, after);
        lemma_encoded_is_no_break(items[0]);
        assert forall|i: int| 0 <= i < tail.len() implies nests_within(
            #[trigger] tail[i],
            (254 - depth) as nat,
        ) by {
            assert(tail[i] == items[i + 1]);
        }
        lemma_open_items_are_skipped(tail, depth, rest);
    }
}

proof fn lemma_open_pairs_are_skipped(pairs: Seq<(CborItem, CborItem)>, depth: nat, rest: Seq<u8>)
    requires
        depth < 256,
        pairs.len() > 0 ==> depth < 255,
        forall|i: int|
            0 <= i < pairs.len() ==> nests_within((#[trigger] pairs[i]).0, (254 - depth) as nat)
                && nests_within(pairs[i].1, (254 - depth) as nat),
    ensures
        behind_items(encoded_pairs(pairs) + (seq![0xffu8] + rest), None, depth, true) == Ok::<
            Seq<u8>,
            Seq<u8>,
        >(rest),
    decreases pairs,
{
    let end = seq![0xffu8] + rest;
    if pairs.len() == 0 {
        assert(encoded_pairs(pairs) + end =~= end);
        assert(behind(end, 1) =~= rest);
    } else {
        let tail = pairs.subrange(1, pairs.len() as int);
        let bytes = encoded_pairs(pairs) + end;
        let after = encoded_pairs(tail) + end;
        let pair = pairs[0];
        assert(bytes =~= encoded(pair.0) + (encoded(pair.1) + after));
        values_are_skipped_whole(pair.0, depth + 1, encoded(pair.1) + after);
        values_are_skipped_whole(pair.1, depth + 1, after);
        lemma_encoded_is_no_break(pair.0);
        assert forall|i: int| 0 <= i < tail.len() implies nests_within(
            (#[trigger] tail[i]).0,
            (254 - depth) as nat,
        ) && nests_within(tail[i].1, (254 - depth) as nat) by {
            assert(tail[i] == pairs[i + 1]);
        }
        lemma_open_pairs_are_skipped(tail, depth, rest);
    }
}

proof fn lemma_encoded_is_no_break(item: CborItem)
    ensures
        encoded(item).len() > 0,
        encoded(item)[0] != 0xff,
{
}

proof fn lemma_items_are_skipped(items: Seq<CborItem>, depth: nat, rest: Seq<u8>)
    requires
        depth < 256,
        items.len() > 0 ==> depth < 255,
        forall|i: int|
            0 <= i < items.len() ==> nests_within(#[trigger] items[i], (254 - depth) as nat),
    ensures
        behind_items(encoded_items(items) + rest, Some(items.len()), depth, false) == Ok::<
            Seq<u8>,
            Seq<u8>,
        >(rest),
    decreases items,
{
    if items.len() == 0 {
        assert(encoded_items(items) + rest =~= rest);
    } else {
        let tail = items.subrange(1, items.len() as int);
        let bytes = encoded_items(items) + rest;
        let after = encoded_items(tail) + rest;
        assert(bytes =~= encoded(items[0]) + after);
        values_are_skipped_whole(items[0], depth + 1, after);
        lemma_encoded_is_no_break(items[0]);
        assert forall|i: int| 0 <= i < tail.len() implies nests_within(
            #[trigger] tail[i],
            (254 - depth) as nat,
        ) by {
            assert(tail[i] == items[i + 1]);
        }
        lemma_items_are_skipped(tail, depth, rest);
    }
}

proof fn lemma_pairs_are_skipped(pairs: Seq<(CborItem, CborItem)>, depth: nat, rest: Seq<u8>)
    requires
        depth < 256,
        pairs.len() > 0 ==> depth < 255,
        forall|i: int|
            0 <= i < pairs.len() ==> nests_within((#[trigger] pairs[i]).0, (254 - depth) as nat)
                && nests_within(pairs[i].1, (254 - depth) as nat),
    ensures
        behind_items(encoded_pairs(pairs) + rest, Some(pairs.len()), depth, true) == Ok::<
            Seq<u8>,
            Seq<u8>,
        >(rest),
    decreases pairs,
{
    if pairs.len() == 0 {
        assert(encoded_pairs(pairs) + rest =~= rest);
    } else {
        let tail = pairs.subrange(1, pairs.len() as int);
        let bytes = encoded_pairs(pairs) + rest;
        let after = encoded_pairs(tail) + rest;
        let pair = pairs[0];
        assert(bytes =~= encoded(pair.0) + (encoded(pair.1) + after));
        values_are_skipped_whole(pair.0, depth + 1, encoded(pair.1) + after);
        values_are_skipped_whole(pair.1, depth + 1, after);
        lemma_encoded_is_no_break(pair.0);
        assert forall|i: int| 0 <= i < tail.len() implies nests_within(
            (#[trigger] tail[i]).0,
            (254 - depth) as nat,
        ) && nests_within(tail[i].1, (254 - depth) as nat) by {
            assert(tail[i] == pairs[i + 1]);
        }
        lemma_pairs_are_skipped(tail, depth, rest);
    }
}

/// The bytes of an envelope's entries: each is a text and a value.
pub open spec fn encoded_entries(entries: Seq<(Seq<u8>, CborItem)>) -> Seq<u8>
    decreases entries.len(),
{
    if entries.len() == 0 {
        Seq::empty()
    } else {
        encoded(CborItem::Text(entries[0].0)) + encoded(entries[0].1) + encoded_entries(
            entries.subrange(1, entries.len() as int),
        )
    }
}

/// The entries can be written, and none of them names the message type.
pub open spec fn are_other_entries(entries: Seq<(Seq<u8>, CborItem)>) -> bool {
    forall|i: int|
        0 <= i < entries.len() ==> {
            let (key, value) = #[trigger] entries[i];
            &&& valid_utf8(key)
            &&& key.len() <= u32::MAX
            &&& key != seq![0x74u8]
            &&& nests_within(value, 255)
        }
}

/// The bytes of the entry that names the message type.
pub open spec fn type_entry(name: Seq<u8>) -> Seq<u8> {
    encoded(CborItem::Text(seq![0x74u8])) + encoded(CborItem::Text(name))
}

proof fn lemma_text_reads_back(text: Seq<u8>, rest: Seq<u8>)
    requires
        valid_utf8(text),
        text.len() <= u32::MAX,
    ensures
        text_item(encoded(CborItem::Text(text)) + rest) == Ok::<(Seq<u8>, Seq<u8>), Seq<u8>>(
            (text, rest),
        ),
        (encoded(CborItem::Text(text)) + rest).len() > rest.len(),
        (encoded(CborItem::Text(text)) + rest)[0] != 0xff,
{
    let bytes = encoded(CborItem::Text(text)) + rest;
    lemma_head_reads_back(3, text.len(), text + rest);
    assert(bytes =~= head_bytes(3, text.len()) + (text + rest));
    assert(behind(text + rest, text.len()) =~= rest);
    assert((text + rest).subrange(0, text.len() as int) =~= text);
    assert(untagged_head(bytes, 256) == Ok::<(CborHead, Seq<u8>), Seq<u8>>(
        (CborHead::Text(Some(text.len() as usize)), text + rest),
    ));
}

/// This many entries more.
spec fn more_entries(left: Option<nat>, count: nat) -> Option<nat> {
    match left {
        Some(n) => Some(n + count),
        None => None,
    }
}

proof fn lemma_other_entry(
    key: Seq<u8>,
    value: CborItem,
    after: Seq<u8>,
    left: Option<nat>,
    found: Option<Seq<u8>>,
)
    requires
        valid_utf8(key),
        key.len() <= u32::MAX,
        key != seq![0x74u8],
        nests_within(value, 255),
    ensures
        envelope_type(
            encoded(CborItem::Text(key)) + (encoded(value) + after),
            more_entries(left, 1),
            found,
        ) == envelope_type(after, left, found),
{
    lemma_text_reads_back(key, encoded(value) + after);
    values_are_skipped_whole(value, 0, after);
    lemma_encoded_is_no_break(value);
}

proof fn lemma_other_entries(
    entries: Seq<(Seq<u8>, CborItem)>,
    more: Seq<u8>,
    left: Option<nat>,
    found: Option<Seq<u8>>,
)
    requires
        are_other_entries(entries),
    ensures
        envelope_type(encoded_entries(entries) + more, more_entries(left, entries.len()), found)
            == envelope_type(more, left, found),
    decreases entries.len(),
{
    if entries.len() == 0 {
        assert(encoded_entries(entries) + more =~= more);
    } else {
        let tail = entries.subrange(1, entries.len() as int);
        let (key, value) = entries[0];
        let after = encoded_entries(tail) + more;
        lemma_regrouped(encoded(CborItem::Text(key)), encoded(value), encoded_entries(tail), more);
        assert forall|i: int| 0 <= i < tail.len() implies {
            let (key, value) = #[trigger] tail[i];
            &&& valid_utf8(key)
            &&& key.len() <= u32::MAX
            &&& key != seq![0x74u8]
            &&& nests_within(value, 255)
        } by {
            assert(tail[i] == entries[i + 1]);
        }
        lemma_other_entry(key, value, after, more_entries(left, tail.len()), found);
        lemma_other_entries(tail, more, left, found);
    }
}

proof fn lemma_regrouped(a: Seq<u8>, b: Seq<u8>, c: Seq<u8>, d: Seq<u8>)
    ensures
        a + b + c + d == a + (b + (c + d)),
{
    assert(a + b + c + d =~= a + (b + (c + d)));
}

proof fn lemma_type_entry(
    name: Seq<u8>,
    more: Seq<u8>,
    left: Option<nat>,
    found: Option<Seq<u8>>,
)
    requires
        valid_utf8(name),
        name.len() <= u32::MAX,
    ensures
        envelope_type(type_entry(name) + more, more_entries(left, 1), found) == if found is Some {
            Err::<(Option<Seq<u8>>, Seq<u8>), Rejection>(Rejection::InvalidEnvelope)
        } else if starts_with(name, control_prefix()) {
            Err::<(Option<Seq<u8>>, Seq<u8>), Rejection>(Rejection::ControlNamespace)
        } else {
            envelope_type(more, left, Some(name))
        },
{
    let bytes = type_entry(name) + more;
    let value = encoded(CborItem::Text(name)) + more;
    assert(bytes =~= encoded(CborItem::Text(seq![0x74u8])) + value);
    lemma_t_is_text();
    lemma_text_reads_back(seq![0x74u8], value);
    lemma_text_reads_back(name, more);
}

proof fn lemma_t_is_text()
    ensures
        valid_utf8(seq![0x74u8]),
{
    reveal_with_fuel(valid_utf8, 3);
    let bytes = seq![0x74u8];
    assert(0x74u8 & 0x80 == 0) by (bit_vector);
}

proof fn lemma_envelope_head(entries: nat, body: Seq<u8>)
    requires
        entries <= u32::MAX,
    ensures
        verdict(head_bytes(5, entries) + body) == match envelope_type(body, Some(entries), None) {
            Err(rejection) => Err::<Seq<u8>, Rejection>(rejection),
            Ok((Some(name), rest)) if rest.len() == 0 => Ok::<Seq<u8>, Rejection>(name),
            Ok(_) => Err::<Seq<u8>, Rejection>(Rejection::InvalidEnvelope),
        },
{
    let bytes = head_bytes(5, entries) + body;
    lemma_head_reads_back(5, entries, body);
    assert(untagged_head(bytes, 256) == Ok::<(CborHead, Seq<u8>), Seq<u8>>(
        (CborHead::Pairs(Some(entries as usize)), body),
    ));
    assert(opt_nat(Some(entries as usize)) == Some(entries));
}

proof fn lemma_last_entries(entries: Seq<(Seq<u8>, CborItem)>, found: Option<Seq<u8>>)
    requires
        are_other_entries(entries),
    ensures
        envelope_type(encoded_entries(entries), Some(entries.len()), found) == Ok::<
            (Option<Seq<u8>>, Seq<u8>),
            Rejection,
        >((found, Seq::<u8>::empty())),
        envelope_type(encoded_entries(entries) + seq![0xffu8], None, found) == Ok::<
            (Option<Seq<u8>>, Seq<u8>),
            Rejection,
        >((found, Seq::<u8>::empty())),
{
    lemma_other_entries(entries, Seq::empty(), Some(0), found);
    assert(encoded_entries(entries) + Seq::<u8>::empty() =~= encoded_entries(entries));
    lemma_other_entries(entries, seq![0xffu8], None, found);
    assert(behind(seq![0xffu8], 1) =~= Seq::<u8>::empty());
}

proof fn lemma_starts_with_control(name: Seq<u8>)
    ensures
        starts_with(name, control_prefix()) <==> name.len() >= 8 && name.subrange(0, 8) == seq![
            0x63u8,
            0x6f,
            0x6e,
            0x74,
            0x72,
            0x6f,
            0x6c,
            0x2e,
        ],
{
    assert(control_prefix() =~= seq![0x63u8, 0x6f, 0x6e, 0x74, 0x72, 0x6f, 0x6c, 0x2e]);
}

/// What becomes of an envelope that names this message type: it passes under it, unless the type
/// begins with the control prefix.
pub open spec fn passes_as(result: Result<Seq<u8>, Rejection>, name: Seq<u8>) -> bool {
    if name.len() >= 8 && name.subrange(0, 8) == seq![
        0x63u8,
        0x6f,
        0x6e,
        0x74,
        0x72,
        0x6f,
        0x6c,
        0x2e,
    ] {
        result == Err::<Seq<u8>, Rejection>(Rejection::ControlNamespace)
    } else {
        result == Ok::<Seq<u8>, Rejection>(name)
    }
}

/// A written envelope is read as it was written: it passes under the message type that it names,
/// wherever among its entries that stands and whatever the other entries hold; and it is refused as
/// one of the host's where that type begins with the control prefix.
pub proof fn written_envelopes_are_read(
    before: Seq<(Seq<u8>, CborItem)>,
    name: Seq<u8>,
    after: Seq<(Seq<u8>, CborItem)>,
)
    requires
        are_other_entries(before),
        are_other_entries(after),
        valid_utf8(name),
        name.len() <= u32::MAX,
        after.len() + 1 + before.len() <= u32::MAX,
    ensures
        passes_as(
            verdict(
                head_bytes(5, after.len() + 1 + before.len()) + (encoded_entries(before) + (
                type_entry(name) + encoded_entries(after))),
            ),
            name,
        ),
{
    let tail = encoded_entries(after);
    let body = encoded_entries(before) + (type_entry(name) + tail);
    lemma_envelope_head(after.len() + 1 + before.len(), body);
    lemma_other_entries(before, type_entry(name) + tail, Some(after.len() + 1), None);
    lemma_type_entry(name, tail, Some(after.len()), None);
    lemma_last_entries(after, Some(name));
    lemma_starts_with_control(name);
}

/// An envelope that ends with a break in place of a number is read in the same way.
pub proof fn open_envelopes_are_read(
    before: Seq<(Seq<u8>, CborItem)>,
    name: Seq<u8>,
    after: Seq<(Seq<u8>, CborItem)>,
)
    requires
        are_other_entries(before),
        are_other_entries(after),
        valid_utf8(name),
        name.len() <= u32::MAX,
    ensures
        passes_as(
            verdict(
                seq![0xbfu8] + (encoded_entries(before) + (type_entry(name) + (encoded_entries(after)
                    + seq![0xffu8]))),
            ),
            name,
        ),
{
    let tail = encoded_entries(after) + seq![0xffu8];
    let body = encoded_entries(before) + (type_entry(name) + tail);
    lemma_open_envelope_head(body);
    lemma_other_entries(before, type_entry(name) + tail, None, None);
    lemma_type_entry(name, tail, None, None);
    lemma_last_entries(after, Some(name));
    lemma_starts_with_control(name);
}

proof fn lemma_open_envelope_head(body: Seq<u8>)
    ensures
        verdict(seq![0xbfu8] + body) == match envelope_type(body, None, None) {
            Err(rejection) => Err::<Seq<u8>, Rejection>(rejection),
            Ok((Some(name), rest)) if rest.len() == 0 => Ok::<Seq<u8>, Rejection>(name),
            Ok(_) => Err::<Seq<u8>, Rejection>(Rejection::InvalidEnvelope),
        },
{
    let bytes = seq![0xbfu8] + body;
    lemma_open_head(0xbf, body);
    assert(untagged_head(bytes, 256) == Ok::<(CborHead, Seq<u8>), Seq<u8>>(
        (CborHead::Pairs(None), body),
    ));
}

/// An envelope that names no type is refused.
pub proof fn envelopes_name_a_type(entries: Seq<(Seq<u8>, CborItem)>)
    requires
        are_other_entries(entries),
        entries.len() <= u32::MAX,
    ensures
        verdict(head_bytes(5, entries.len()) + encoded_entries(entries)) == Err::<
            Seq<u8>,
            Rejection,
        >(Rejection::InvalidEnvelope),
{
    lemma_envelope_head(entries.len(), encoded_entries(entries));
    lemma_last_entries(entries, None);
}

/// An envelope that names its type twice is refused, whatever else it holds.
pub proof fn envelopes_name_their_type_once(
    before: Seq<(Seq<u8>, CborItem)>,
    name: Seq<u8>,
    between: Seq<(Seq<u8>, CborItem)>,
    again: Seq<u8>,
    after: Seq<u8>,
    more: nat,
)
    requires
        are_other_entries(before),
        are_other_entries(between),
        valid_utf8(name),
        name.len() <= u32::MAX,
        !starts_with(name, control_prefix()),
        valid_utf8(again),
        again.len() <= u32::MAX,
        more + 1 + between.len() + 1 + before.len() <= u32::MAX,
    ensures
        verdict(
            head_bytes(5, more + 1 + between.len() + 1 + before.len()) + (encoded_entries(before) + (
            type_entry(name) + (encoded_entries(between) + (type_entry(again) + after)))),
        ) == Err::<Seq<u8>, Rejection>(Rejection::InvalidEnvelope),
{
    let second = type_entry(again) + after;
    let rest = encoded_entries(between) + second;
    lemma_type_entry(again, after, Some(more), Some(name));
    lemma_other_entries(between, second, Some(more + 1), Some(name));
    lemma_type_entry(name, rest, Some(more + 1 + between.len()), None);
    lemma_other_entries(
        before,
        type_entry(name) + rest,
        Some(more + 1 + between.len() + 1),
        None,
    );
    lemma_envelope_head(
        more + 1 + between.len() + 1 + before.len(),
        encoded_entries(before) + (type_entry(name) + rest),
    );
}

} // verus!
