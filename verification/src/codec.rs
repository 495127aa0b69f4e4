//! The binary message codec, specified mathematically.
//!
//! [`spec_message_encode`] gives the exact byte sequence a message encodes
//! to, and [`spec_message_decode`] the exact result of decoding any byte
//! sequence. The executable encoder and decoder here are proved against the
//! two — `Message::serialize` and `Message::deserialize` are their public
//! entry points — and [`lemma_message_round_trip`] proves that decoding
//! inverts encoding on every well-formed message value.
//!
//! Wire format: one tag byte selects the `Message` variant, then its fields.
//! Multi-byte integers are little-endian; lists and strings carry a 64-bit
//! element count or byte length; strings are UTF-8; slider levels are a
//! fixed-size run of 16-bit values.

use crate::action::Action;
use crate::action::ActionView;
use crate::audiolevels::AudioLvls;
use crate::config::{BtnConfig, Config, ConfigView, Slider, SliderConfig};
use crate::message::{Message, MessageView};
use crate::{N_HWB, N_SLIDERS, N_SWB};
use vstd::bytes::{spec_u16_to_le_bytes, spec_u16_from_le_bytes, spec_u64_to_le_bytes,
    spec_u64_from_le_bytes};
use vstd::prelude::*;
use vstd::string::StrSliceExecFns;
use vstd::utf8::{decode_utf8, encode_utf8, valid_utf8};

verus! {

// ---------------------------------------------------------------------------
// Well-formedness of message values
// ---------------------------------------------------------------------------

/// A well-formed action's key-code list fits its 64-bit length prefix.
pub open spec fn wf_action(a: ActionView) -> bool {
    match a {
        ActionView::Command(_) => true,
        ActionView::KbdHid(codes) => codes.len() <= u64::MAX,
        ActionView::MediaHid(_) => true,
    }
}

/// A well-formed string's UTF-8 form fits its 64-bit length prefix.
pub open spec fn wf_string(s: Seq<char>) -> bool {
    encode_utf8(s).len() <= u64::MAX
}

/// A well-formed configuration keeps every list within its capacity.
pub open spec fn wf_config(c: ConfigView) -> bool {
    &&& c.hw_btns.len() <= N_HWB
    &&& forall|i: int| 0 <= i < c.hw_btns.len() ==> wf_action(#[trigger] c.hw_btns[i])
    &&& c.sw_btns.len() <= N_SWB
    &&& forall|i: int| 0 <= i < c.sw_btns.len() ==> wf_action(#[trigger] c.sw_btns[i])
    &&& c.sliders.len() <= N_SLIDERS
    &&& forall|i: int| 0 <= i < c.sliders.len() ==> wf_string(#[trigger] c.sliders[i])
}

/// The message values the codec round-trips: every value constructible
/// through the library's public interface is well-formed.
pub open spec fn wf_message(m: MessageView) -> bool {
    match m {
        MessageView::StartupConfiguration(c) => wf_config(c),
        MessageView::EditSWBtn(_, a) => wf_action(a),
        MessageView::EditHWBtn(_, a) => wf_action(a),
        MessageView::BtnPress(a) => wf_action(a),
        MessageView::AudioLvls(l) => l.len() == N_SLIDERS,
    }
}

// ---------------------------------------------------------------------------
// Encoding
// ---------------------------------------------------------------------------

/// The encoding of one action.
pub open spec fn spec_action_encode(a: ActionView) -> Seq<u8> {
    match a {
        ActionView::Command(idx) => seq![0u8, idx],
        ActionView::KbdHid(codes) => seq![1u8] + spec_u64_to_le_bytes(codes.len() as u64)
            + codes,
        ActionView::MediaHid(code) => seq![2u8] + spec_u16_to_le_bytes(code),
    }
}

/// The concatenated encodings of a list of actions.
pub open spec fn spec_actions_encode(s: Seq<ActionView>) -> Seq<u8>
    decreases s.len(),
{
    if s.len() == 0 {
        Seq::empty()
    } else {
        spec_action_encode(s[0]) + spec_actions_encode(s.drop_first())
    }
}

/// The encoding of one string: 64-bit byte length, then UTF-8 bytes.
pub open spec fn spec_string_encode(s: Seq<char>) -> Seq<u8> {
    spec_u64_to_le_bytes(encode_utf8(s).len() as u64) + encode_utf8(s)
}

/// The concatenated encodings of a list of strings.
pub open spec fn spec_strings_encode(s: Seq<Seq<char>>) -> Seq<u8>
    decreases s.len(),
{
    if s.len() == 0 {
        Seq::empty()
    } else {
        spec_string_encode(s[0]) + spec_strings_encode(s.drop_first())
    }
}

/// The concatenated encodings of a run of 16-bit levels.
pub open spec fn spec_levels_encode(l: Seq<u16>) -> Seq<u8>
    decreases l.len(),
{
    if l.len() == 0 {
        Seq::empty()
    } else {
        spec_u16_to_le_bytes(l[0]) + spec_levels_encode(l.drop_first())
    }
}

/// The encoding of a whole configuration: each list is a 64-bit element
/// count followed by the elements.
pub open spec fn spec_config_encode(c: ConfigView) -> Seq<u8> {
    spec_u64_to_le_bytes(c.hw_btns.len() as u64) + spec_actions_encode(c.hw_btns)
        + spec_u64_to_le_bytes(c.sw_btns.len() as u64) + spec_actions_encode(c.sw_btns)
        + spec_u64_to_le_bytes(c.sliders.len() as u64) + spec_strings_encode(c.sliders)
}

/// The encoding of a whole message: a tag byte, then the variant's fields.
pub open spec fn spec_message_encode(m: MessageView) -> Seq<u8> {
    match m {
        MessageView::StartupConfiguration(c) => seq![0u8] + spec_config_encode(c),
        MessageView::EditSWBtn(idx, a) => seq![1u8, idx] + spec_action_encode(a),
        MessageView::EditHWBtn(idx, a) => seq![2u8, idx] + spec_action_encode(a),
        MessageView::BtnPress(a) => seq![3u8] + spec_action_encode(a),
        MessageView::AudioLvls(l) => seq![4u8] + spec_levels_encode(l),
    }
}

// ---------------------------------------------------------------------------
// Decoding
// ---------------------------------------------------------------------------

/// Reads one byte at `i`.
pub open spec fn spec_take_u8(s: Seq<u8>, i: int) -> Option<(u8, int)> {
    if 0 <= i && i + 1 <= s.len() {
        Some((s[i], i + 1))
    } else {
        None
    }
}

/// Reads a little-endian 16-bit value at `i`.
pub open spec fn spec_take_u16(s: Seq<u8>, i: int) -> Option<(u16, int)> {
    if 0 <= i && i + 2 <= s.len() {
        Some((spec_u16_from_le_bytes(s.subrange(i, i + 2)), i + 2))
    } else {
        None
    }
}

/// Reads a little-endian 64-bit value at `i`.
pub open spec fn spec_take_u64(s: Seq<u8>, i: int) -> Option<(u64, int)> {
    if 0 <= i && i + 8 <= s.len() {
        Some((spec_u64_from_le_bytes(s.subrange(i, i + 8)), i + 8))
    } else {
        None
    }
}

/// Reads `n` raw bytes at `i`.
pub open spec fn spec_take_bytes(s: Seq<u8>, i: int, n: int) -> Option<(Seq<u8>, int)> {
    if 0 <= i && 0 <= n && i + n <= s.len() {
        Some((s.subrange(i, i + n), i + n))
    } else {
        None
    }
}

/// Decodes one action at `i`.
pub open spec fn spec_action_decode(s: Seq<u8>, i: int) -> Option<(ActionView, int)> {
    match spec_take_u8(s, i) {
        None => None,
        Some((tag, j)) => if tag == 0 {
            match spec_take_u8(s, j) {
                None => None,
                Some((idx, k)) => Some((ActionView::Command(idx), k)),
            }
        } else if tag == 1 {
            match spec_take_u64(s, j) {
                None => None,
                Some((n, k)) => match spec_take_bytes(s, k, n as int) {
                    None => None,
                    Some((codes, m)) => Some((ActionView::KbdHid(codes), m)),
                },
            }
        } else if tag == 2 {
            match spec_take_u16(s, j) {
                None => None,
                Some((code, k)) => Some((ActionView::MediaHid(code), k)),
            }
        } else {
            None
        },
    }
}

/// Decodes `n` actions at `i`.
pub open spec fn spec_actions_decode(s: Seq<u8>, i: int, n: nat) -> Option<
    (Seq<ActionView>, int),
>
    decreases n,
{
    if n == 0 {
        Some((Seq::empty(), i))
    } else {
        match spec_action_decode(s, i) {
            None => None,
            Some((a, j)) => match spec_actions_decode(s, j, (n - 1) as nat) {
                None => None,
                Some((rest, k)) => Some((seq![a] + rest, k)),
            },
        }
    }
}

/// Decodes one string at `i`: the byte run after the length prefix must be
/// valid UTF-8.
pub open spec fn spec_string_decode(s: Seq<u8>, i: int) -> Option<(Seq<char>, int)> {
    match spec_take_u64(s, i) {
        None => None,
        Some((n, j)) => match spec_take_bytes(s, j, n as int) {
            None => None,
            Some((bytes, k)) => if valid_utf8(bytes) {
                Some((decode_utf8(bytes), k))
            } else {
                None
            },
        },
    }
}

/// Decodes `n` strings at `i`.
pub open spec fn spec_strings_decode(s: Seq<u8>, i: int, n: nat) -> Option<
    (Seq<Seq<char>>, int),
>
    decreases n,
{
    if n == 0 {
        Some((Seq::empty(), i))
    } else {
        match spec_string_decode(s, i) {
            None => None,
            Some((c, j)) => match spec_strings_decode(s, j, (n - 1) as nat) {
                None => None,
                Some((rest, k)) => Some((seq![c] + rest, k)),
            },
        }
    }
}

/// Decodes `n` 16-bit levels at `i`.
pub open spec fn spec_levels_decode(s: Seq<u8>, i: int, n: nat) -> Option<(Seq<u16>, int)>
    decreases n,
{
    if n == 0 {
        Some((Seq::empty(), i))
    } else {
        match spec_take_u16(s, i) {
            None => None,
            Some((v, j)) => match spec_levels_decode(s, j, (n - 1) as nat) {
                None => None,
                Some((rest, k)) => Some((seq![v] + rest, k)),
            },
        }
    }
}

/// Decodes a counted action list at `i`: a 64-bit element count, then that
/// many actions; a count over `cap` is malformed.
pub open spec fn spec_action_list_decode(s: Seq<u8>, i: int, cap: int) -> Option<
    (Seq<ActionView>, int),
> {
    match spec_take_u64(s, i) {
        None => None,
        Some((n, j)) => if n > cap {
            None
        } else {
            spec_actions_decode(s, j, n as nat)
        },
    }
}

/// Decodes a counted string list at `i`; a count over `cap` is malformed.
pub open spec fn spec_string_list_decode(s: Seq<u8>, i: int, cap: int) -> Option<
    (Seq<Seq<char>>, int),
> {
    match spec_take_u64(s, i) {
        None => None,
        Some((n, j)) => if n > cap {
            None
        } else {
            spec_strings_decode(s, j, n as nat)
        },
    }
}

/// Decodes a whole configuration at `i`; an element count over the fixed
/// capacity is malformed.
pub open spec fn spec_config_decode(s: Seq<u8>, i: int) -> Option<(ConfigView, int)> {
    match spec_action_list_decode(s, i, N_HWB as int) {
        None => None,
        Some((hw, j2)) => match spec_action_list_decode(s, j2, N_SWB as int) {
            None => None,
            Some((sw, j4)) => match spec_string_list_decode(s, j4, N_SLIDERS as int) {
                None => None,
                Some((sliders, j6)) => Some(
                    (ConfigView { hw_btns: hw, sw_btns: sw, sliders }, j6),
                ),
            },
        },
    }
}

/// Decodes one message starting at `i`.
pub open spec fn spec_message_decode_at(s: Seq<u8>, i: int) -> Option<(MessageView, int)> {
    match spec_take_u8(s, i) {
        None => None,
        Some((tag, j)) => if tag == 0 {
            match spec_config_decode(s, j) {
                None => None,
                Some((c, k)) => Some((MessageView::StartupConfiguration(c), k)),
            }
        } else if tag == 1 {
            match spec_take_u8(s, j) {
                None => None,
                Some((idx, k)) => match spec_action_decode(s, k) {
                    None => None,
                    Some((a, m)) => Some((MessageView::EditSWBtn(idx, a), m)),
                },
            }
        } else if tag == 2 {
            match spec_take_u8(s, j) {
                None => None,
                Some((idx, k)) => match spec_action_decode(s, k) {
                    None => None,
                    Some((a, m)) => Some((MessageView::EditHWBtn(idx, a), m)),
                },
            }
        } else if tag == 3 {
            match spec_action_decode(s, j) {
                None => None,
                Some((a, k)) => Some((MessageView::BtnPress(a), k)),
            }
        } else if tag == 4 {
            match spec_levels_decode(s, j, N_SLIDERS as nat) {
                None => None,
                Some((l, k)) => Some((MessageView::AudioLvls(l), k)),
            }
        } else {
            None
        },
    }
}

/// Decodes a whole byte buffer: exactly one message, consuming every byte.
pub open spec fn spec_message_decode(s: Seq<u8>) -> Option<MessageView> {
    match spec_message_decode_at(s, 0) {
        None => None,
        Some((m, n)) => if n == s.len() {
            Some(m)
        } else {
            None
        },
    }
}

// ---------------------------------------------------------------------------
// Round trip: decoding inverts encoding
// ---------------------------------------------------------------------------

/// A window of `s` equals the same window of the sub-sequence `enc` standing
/// at position `i` of `s`.
proof fn lemma_subrange_window(s: Seq<u8>, i: int, enc: Seq<u8>, a: int, b: int)
    requires
        0 <= i,
        i + enc.len() <= s.len(),
        s.subrange(i, i + enc.len() as int) == enc,
        0 <= a <= b <= enc.len(),
    ensures
        s.subrange(i + a, i + b) == enc.subrange(a, b),
{
    assert(s.subrange(i + a, i + b) =~= enc.subrange(a, b)) by {
        assert forall|k: int| 0 <= k < b - a implies s.subrange(i + a, i + b)[k] == enc.subrange(
            a,
            b,
        )[k] by {
            assert(s.subrange(i, i + enc.len() as int)[a + k] == enc[a + k]);
        }
    }
}

/// One byte of `s` inside the window equals the matching byte of `enc`.
proof fn lemma_window_byte(s: Seq<u8>, i: int, enc: Seq<u8>, a: int)
    requires
        0 <= i,
        i + enc.len() <= s.len(),
        s.subrange(i, i + enc.len() as int) == enc,
        0 <= a < enc.len(),
    ensures
        s[i + a] == enc[a],
{
    assert(s.subrange(i, i + enc.len() as int)[a] == enc[a]);
}

/// Decoding one action at the position where its encoding stands yields the
/// action back and stops right after it.
proof fn lemma_action_round_trip(s: Seq<u8>, i: int, a: ActionView)
    requires
        wf_action(a),
        0 <= i,
        i + spec_action_encode(a).len() <= s.len(),
        s.subrange(i, i + spec_action_encode(a).len() as int) == spec_action_encode(a),
    ensures
        spec_action_decode(s, i) == Some((a, i + spec_action_encode(a).len() as int)),
{
    let enc = spec_action_encode(a);
    match a {
        ActionView::Command(idx) => {
            lemma_window_byte(s, i, enc, 0);
            lemma_window_byte(s, i, enc, 1);
            assert(spec_take_u8(s, i) == Some((0u8, i + 1)));
            assert(spec_take_u8(s, i + 1) == Some((idx, i + 2)));
        },
        ActionView::KbdHid(codes) => {
            let lenb = spec_u64_to_le_bytes(codes.len() as u64);
            vstd::bytes::lemma_auto_spec_u64_to_from_le_bytes();
            assert(enc == seq![1u8] + lenb + codes);
            assert(enc.len() == 9 + codes.len());
            lemma_window_byte(s, i, enc, 0);
            assert(enc[0] == 1u8);
            lemma_subrange_window(s, i, enc, 1, 9);
            assert(enc.subrange(1, 9) =~= lenb);
            assert(spec_take_u64(s, i + 1) == Some(
                (spec_u64_from_le_bytes(lenb), i + 9),
            ));
            assert(spec_u64_from_le_bytes(lenb) == codes.len() as u64);
            lemma_subrange_window(s, i, enc, 9, enc.len() as int);
            assert(enc.subrange(9, enc.len() as int) =~= codes);
            assert(spec_take_bytes(s, i + 9, codes.len() as int) == Some(
                (codes, i + 9 + codes.len()),
            ));
        },
        ActionView::MediaHid(code) => {
            let lenb = spec_u16_to_le_bytes(code);
            vstd::bytes::lemma_auto_spec_u16_to_from_le_bytes();
            lemma_window_byte(s, i, enc, 0);
            assert(enc[0] == 2u8);
            lemma_subrange_window(s, i, enc, 1, 3);
            assert(enc.subrange(1, 3) =~= lenb);
            assert(spec_take_u16(s, i + 1) == Some(
                (spec_u16_from_le_bytes(lenb), i + 3),
            ));
        },
    }
}

/// Decoding `v.len()` actions where their concatenated encodings stand
/// yields the list back.
proof fn lemma_actions_round_trip(s: Seq<u8>, i: int, v: Seq<ActionView>)
    requires
        forall|k: int| 0 <= k < v.len() ==> wf_action(#[trigger] v[k]),
        0 <= i,
        i + spec_actions_encode(v).len() <= s.len(),
        s.subrange(i, i + spec_actions_encode(v).len() as int) == spec_actions_encode(v),
    ensures
        spec_actions_decode(s, i, v.len()) == Some(
            (v, i + spec_actions_encode(v).len() as int),
        ),
    decreases v.len(),
{
    if v.len() == 0 {
        assert(spec_actions_decode(s, i, 0) == Some((Seq::<ActionView>::empty(), i)));
        assert(v =~= Seq::<ActionView>::empty());
    } else {
        let enc = spec_actions_encode(v);
        let e0 = spec_action_encode(v[0]);
        let rest = spec_actions_encode(v.drop_first());
        assert(enc == e0 + rest);
        lemma_subrange_window(s, i, enc, 0, e0.len() as int);
        assert(enc.subrange(0, e0.len() as int) =~= e0);
        lemma_action_round_trip(s, i, v[0]);
        lemma_subrange_window(s, i, enc, e0.len() as int, enc.len() as int);
        assert(enc.subrange(e0.len() as int, enc.len() as int) =~= rest);
        assert(forall|k: int| 0 <= k < v.drop_first().len() ==> wf_action(
            #[trigger] v.drop_first()[k],
        ));
        lemma_actions_round_trip(s, i + e0.len() as int, v.drop_first());
        assert(seq![v[0]] + v.drop_first() =~= v);
    }
}

/// Decoding one string where its encoding stands yields the string back.
proof fn lemma_string_round_trip(s: Seq<u8>, i: int, v: Seq<char>)
    requires
        wf_string(v),
        0 <= i,
        i + spec_string_encode(v).len() <= s.len(),
        s.subrange(i, i + spec_string_encode(v).len() as int) == spec_string_encode(v),
    ensures
        spec_string_decode(s, i) == Some((v, i + spec_string_encode(v).len() as int)),
{
    let enc = spec_string_encode(v);
    let bytes = encode_utf8(v);
    let lenb = spec_u64_to_le_bytes(bytes.len() as u64);
    vstd::bytes::lemma_auto_spec_u64_to_from_le_bytes();
    assert(enc == lenb + bytes);
    lemma_subrange_window(s, i, enc, 0, 8);
    assert(enc.subrange(0, 8) =~= lenb);
    assert(spec_take_u64(s, i) == Some((spec_u64_from_le_bytes(lenb), i + 8)));
    assert(spec_u64_from_le_bytes(lenb) == bytes.len() as u64);
    lemma_subrange_window(s, i, enc, 8, enc.len() as int);
    assert(enc.subrange(8, enc.len() as int) =~= bytes);
    assert(spec_take_bytes(s, i + 8, bytes.len() as int) == Some(
        (bytes, i + 8 + bytes.len()),
    ));
    vstd::utf8::encode_utf8_valid_utf8(v);
    vstd::utf8::encode_utf8_decode_utf8(v);
}

/// Decoding `v.len()` strings where their encodings stand yields them back.
proof fn lemma_strings_round_trip(s: Seq<u8>, i: int, v: Seq<Seq<char>>)
    requires
        forall|k: int| 0 <= k < v.len() ==> wf_string(#[trigger] v[k]),
        0 <= i,
        i + spec_strings_encode(v).len() <= s.len(),
        s.subrange(i, i + spec_strings_encode(v).len() as int) == spec_strings_encode(v),
    ensures
        spec_strings_decode(s, i, v.len()) == Some(
            (v, i + spec_strings_encode(v).len() as int),
        ),
    decreases v.len(),
{
    if v.len() == 0 {
        assert(v =~= Seq::<Seq<char>>::empty());
    } else {
        let enc = spec_strings_encode(v);
        let e0 = spec_string_encode(v[0]);
        let rest = spec_strings_encode(v.drop_first());
        assert(enc == e0 + rest);
        lemma_subrange_window(s, i, enc, 0, e0.len() as int);
        assert(enc.subrange(0, e0.len() as int) =~= e0);
        lemma_string_round_trip(s, i, v[0]);
        lemma_subrange_window(s, i, enc, e0.len() as int, enc.len() as int);
        assert(enc.subrange(e0.len() as int, enc.len() as int) =~= rest);
        lemma_strings_round_trip(s, i + e0.len() as int, v.drop_first());
        assert(seq![v[0]] + v.drop_first() =~= v);
    }
}

/// Decoding `v.len()` levels where their encodings stand yields them back.
proof fn lemma_levels_round_trip(s: Seq<u8>, i: int, v: Seq<u16>)
    requires
        0 <= i,
        i + spec_levels_encode(v).len() <= s.len(),
        s.subrange(i, i + spec_levels_encode(v).len() as int) == spec_levels_encode(v),
    ensures
        spec_levels_decode(s, i, v.len()) == Some(
            (v, i + spec_levels_encode(v).len() as int),
        ),
    decreases v.len(),
{
    if v.len() == 0 {
        assert(v =~= Seq::<u16>::empty());
    } else {
        let enc = spec_levels_encode(v);
        let e0 = spec_u16_to_le_bytes(v[0]);
        let rest = spec_levels_encode(v.drop_first());
        vstd::bytes::lemma_auto_spec_u16_to_from_le_bytes();
        assert(enc == e0 + rest);
        lemma_subrange_window(s, i, enc, 0, 2);
        assert(enc.subrange(0, 2) =~= e0);
        assert(spec_take_u16(s, i) == Some((spec_u16_from_le_bytes(e0), i + 2)));
        lemma_subrange_window(s, i, enc, 2, enc.len() as int);
        assert(enc.subrange(2, enc.len() as int) =~= rest);
        lemma_levels_round_trip(s, i + 2, v.drop_first());
        assert(seq![v[0]] + v.drop_first() =~= v);
    }
}

/// Decoding a configuration where its encoding stands yields it back.
proof fn lemma_config_round_trip(s: Seq<u8>, i: int, c: ConfigView)
    requires
        wf_config(c),
        0 <= i,
        i + spec_config_encode(c).len() <= s.len(),
        s.subrange(i, i + spec_config_encode(c).len() as int) == spec_config_encode(c),
    ensures
        spec_config_decode(s, i) == Some((c, i + spec_config_encode(c).len() as int)),
{
    let enc = spec_config_encode(c);
    let hw_lenb = spec_u64_to_le_bytes(c.hw_btns.len() as u64);
    let hw_enc = spec_actions_encode(c.hw_btns);
    let sw_lenb = spec_u64_to_le_bytes(c.sw_btns.len() as u64);
    let sw_enc = spec_actions_encode(c.sw_btns);
    let sl_lenb = spec_u64_to_le_bytes(c.sliders.len() as u64);
    let sl_enc = spec_strings_encode(c.sliders);
    vstd::bytes::lemma_auto_spec_u64_to_from_le_bytes();
    assert(enc == hw_lenb + hw_enc + sw_lenb + sw_enc + sl_lenb + sl_enc);
    let o1: int = 8;
    let o2: int = o1 + hw_enc.len();
    let o3: int = o2 + 8;
    let o4: int = o3 + sw_enc.len();
    let o5: int = o4 + 8;
    let o6: int = o5 + sl_enc.len();
    lemma_subrange_window(s, i, enc, 0, o1);
    assert(enc.subrange(0, o1) =~= hw_lenb);
    assert(spec_take_u64(s, i) == Some((c.hw_btns.len() as u64, i + 8)));
    lemma_subrange_window(s, i, enc, o1, o2);
    assert(enc.subrange(o1, o2) =~= hw_enc);
    lemma_actions_round_trip(s, i + o1, c.hw_btns);
    lemma_subrange_window(s, i, enc, o2, o3);
    assert(enc.subrange(o2, o3) =~= sw_lenb);
    assert(spec_take_u64(s, i + o2) == Some((c.sw_btns.len() as u64, i + o3)));
    lemma_subrange_window(s, i, enc, o3, o4);
    assert(enc.subrange(o3, o4) =~= sw_enc);
    lemma_actions_round_trip(s, i + o3, c.sw_btns);
    lemma_subrange_window(s, i, enc, o4, o5);
    assert(enc.subrange(o4, o5) =~= sl_lenb);
    assert(spec_take_u64(s, i + o4) == Some((c.sliders.len() as u64, i + o5)));
    lemma_subrange_window(s, i, enc, o5, o6);
    assert(enc.subrange(o5, o6) =~= sl_enc);
    lemma_strings_round_trip(s, i + o5, c.sliders);
    assert(spec_config_decode(s, i) == Some((ConfigView {
        hw_btns: c.hw_btns,
        sw_btns: c.sw_btns,
        sliders: c.sliders,
    }, i + o6)));
    assert(ConfigView { hw_btns: c.hw_btns, sw_btns: c.sw_btns, sliders: c.sliders } == c);
}

/// Law: decoding inverts encoding. For every well-formed message value,
/// decoding its encoded byte buffer yields exactly that value.
pub proof fn lemma_message_round_trip(m: MessageView)
    requires
        wf_message(m),
    ensures
        spec_message_decode(spec_message_encode(m)) == Some(m),
{
    let s = spec_message_encode(m);
    match m {
        MessageView::StartupConfiguration(c) => {
            let enc = spec_config_encode(c);
            assert(s == seq![0u8] + enc);
            assert(s[0] == 0u8);
            assert(s.subrange(1, 1 + enc.len() as int) =~= enc);
            lemma_config_round_trip(s, 1, c);
        },
        MessageView::EditSWBtn(idx, a) => {
            let enc = spec_action_encode(a);
            assert(s == seq![1u8, idx] + enc);
            assert(s[0] == 1u8);
            assert(s[1] == idx);
            assert(s.subrange(2, 2 + enc.len() as int) =~= enc);
            lemma_action_round_trip(s, 2, a);
        },
        MessageView::EditHWBtn(idx, a) => {
            let enc = spec_action_encode(a);
            assert(s == seq![2u8, idx] + enc);
            assert(s[0] == 2u8);
            assert(s[1] == idx);
            assert(s.subrange(2, 2 + enc.len() as int) =~= enc);
            lemma_action_round_trip(s, 2, a);
        },
        MessageView::BtnPress(a) => {
            let enc = spec_action_encode(a);
            assert(s == seq![3u8] + enc);
            assert(s[0] == 3u8);
            assert(s.subrange(1, 1 + enc.len() as int) =~= enc);
            lemma_action_round_trip(s, 1, a);
        },
        MessageView::AudioLvls(l) => {
            let enc = spec_levels_encode(l);
            assert(s == seq![4u8] + enc);
            assert(s[0] == 4u8);
            assert(s.subrange(1, 1 + enc.len() as int) =~= enc);
            lemma_levels_round_trip(s, 1, l);
        },
    }
}

// ---------------------------------------------------------------------------
// Encoding is compositional over appends
// ---------------------------------------------------------------------------

/// Appending one action to a list appends its encoding.
proof fn lemma_actions_encode_push(l: Seq<ActionView>, x: ActionView)
    ensures
        spec_actions_encode(l.push(x)) == spec_actions_encode(l) + spec_action_encode(x),
    decreases l.len(),
{
    let lp = l.push(x);
    if l.len() == 0 {
        assert(lp[0] == x);
        assert(lp.drop_first() =~= Seq::<ActionView>::empty());
        assert(spec_actions_encode(lp.drop_first()) == Seq::<u8>::empty());
        assert(spec_actions_encode(lp) == spec_action_encode(x) + Seq::<u8>::empty());
        assert(spec_actions_encode(lp) =~= spec_actions_encode(l) + spec_action_encode(x));
    } else {
        assert(lp[0] == l[0]);
        assert(lp.drop_first() =~= l.drop_first().push(x));
        lemma_actions_encode_push(l.drop_first(), x);
        assert(spec_actions_encode(lp) == spec_action_encode(l[0]) + (spec_actions_encode(
            l.drop_first(),
        ) + spec_action_encode(x)));
        assert(spec_action_encode(l[0]) + (spec_actions_encode(l.drop_first())
            + spec_action_encode(x)) =~= (spec_action_encode(l[0]) + spec_actions_encode(
            l.drop_first(),
        )) + spec_action_encode(x));
    }
}

/// Appending one string to a list appends its encoding.
proof fn lemma_strings_encode_push(l: Seq<Seq<char>>, x: Seq<char>)
    ensures
        spec_strings_encode(l.push(x)) == spec_strings_encode(l) + spec_string_encode(x),
    decreases l.len(),
{
    let lp = l.push(x);
    if l.len() == 0 {
        assert(lp[0] == x);
        assert(lp.drop_first() =~= Seq::<Seq<char>>::empty());
        assert(spec_strings_encode(lp.drop_first()) == Seq::<u8>::empty());
        assert(spec_strings_encode(lp) == spec_string_encode(x) + Seq::<u8>::empty());
        assert(spec_strings_encode(lp) =~= spec_strings_encode(l) + spec_string_encode(x));
    } else {
        assert(lp[0] == l[0]);
        assert(lp.drop_first() =~= l.drop_first().push(x));
        lemma_strings_encode_push(l.drop_first(), x);
        assert(spec_strings_encode(lp) == spec_string_encode(l[0]) + (spec_strings_encode(
            l.drop_first(),
        ) + spec_string_encode(x)));
        assert(spec_string_encode(l[0]) + (spec_strings_encode(l.drop_first())
            + spec_string_encode(x)) =~= (spec_string_encode(l[0]) + spec_strings_encode(
            l.drop_first(),
        )) + spec_string_encode(x));
    }
}

/// Appending one level to a run appends its encoding.
proof fn lemma_levels_encode_push(l: Seq<u16>, x: u16)
    ensures
        spec_levels_encode(l.push(x)) == spec_levels_encode(l) + spec_u16_to_le_bytes(x),
    decreases l.len(),
{
    let lp = l.push(x);
    if l.len() == 0 {
        assert(lp[0] == x);
        assert(lp.drop_first() =~= Seq::<u16>::empty());
        assert(spec_levels_encode(lp.drop_first()) == Seq::<u8>::empty());
        assert(spec_levels_encode(lp) == spec_u16_to_le_bytes(x) + Seq::<u8>::empty());
        assert(spec_levels_encode(lp) =~= spec_levels_encode(l) + spec_u16_to_le_bytes(x));
    } else {
        assert(lp[0] == l[0]);
        assert(lp.drop_first() =~= l.drop_first().push(x));
        lemma_levels_encode_push(l.drop_first(), x);
        assert(spec_levels_encode(lp) == spec_u16_to_le_bytes(l[0]) + (spec_levels_encode(
            l.drop_first(),
        ) + spec_u16_to_le_bytes(x)));
        assert(spec_u16_to_le_bytes(l[0]) + (spec_levels_encode(l.drop_first())
            + spec_u16_to_le_bytes(x)) =~= (spec_u16_to_le_bytes(l[0]) + spec_levels_encode(
            l.drop_first(),
        )) + spec_u16_to_le_bytes(x));
    }
}

// ---------------------------------------------------------------------------
// Executable encoder
// ---------------------------------------------------------------------------

/// Appends a 16-bit value, little-endian.
pub(crate) fn push_u16(buf: &mut Vec<u8>, x: u16)
    ensures
        final(buf)@ == old(buf)@ + spec_u16_to_le_bytes(x),
{
    let bytes = vstd::bytes::u16_to_le_bytes(x);
    buf.extend_from_slice(bytes.as_slice());
    proof {
        assert(final(buf)@ =~= old(buf)@ + spec_u16_to_le_bytes(x));
    }
}

/// Appends a 64-bit value, little-endian.
pub(crate) fn push_u64(buf: &mut Vec<u8>, x: u64)
    ensures
        final(buf)@ == old(buf)@ + spec_u64_to_le_bytes(x),
{
    let bytes = vstd::bytes::u64_to_le_bytes(x);
    buf.extend_from_slice(bytes.as_slice());
    proof {
        assert(final(buf)@ =~= old(buf)@ + spec_u64_to_le_bytes(x));
    }
}

/// Appends one action's encoding.
pub(crate) fn encode_action(buf: &mut Vec<u8>, action: &Action)
    ensures
        final(buf)@ == old(buf)@ + spec_action_encode(action@),
        wf_action(action@),
{
    match action {
        Action::Command(idx) => {
            buf.push(0u8);
            buf.push(*idx);
            proof {
                assert(final(buf)@ =~= old(buf)@ + spec_action_encode(action@));
            }
        },
        Action::KbdHid(codes) => {
            let n = codes.len();
            buf.push(1u8);
            push_u64(buf, n as u64);
            buf.extend_from_slice(codes.as_slice());
            proof {
                assert(final(buf)@ =~= old(buf)@ + spec_action_encode(action@));
            }
        },
        Action::MediaHid(code) => {
            buf.push(2u8);
            push_u16(buf, *code);
            proof {
                assert(final(buf)@ =~= old(buf)@ + spec_action_encode(action@));
            }
        },
    }
}

/// Appends one button configuration's encoding: element count, then each
/// action.
pub(crate) fn encode_btn_config<const N: usize>(buf: &mut Vec<u8>, cfg: &BtnConfig<N>)
    requires
        cfg.wf(),
    ensures
        final(buf)@ == old(buf)@ + spec_u64_to_le_bytes(cfg@.len() as u64)
            + spec_actions_encode(cfg@),
        forall|k: int| 0 <= k < cfg@.len() ==> wf_action(#[trigger] cfg@[k]),
        cfg@.len() <= N,
{
    let n = cfg.len();
    push_u64(buf, n as u64);
    let ghost base = buf@;
    let mut i: usize = 0;
    while i < n
        invariant
            n == cfg@.len(),
            cfg.wf(),
            i <= n,
            buf@ == base + spec_actions_encode(cfg@.take(i as int)),
            forall|k: int| 0 <= k < i ==> wf_action(#[trigger] cfg@[k]),
        decreases n - i,
    {
        encode_action(buf, cfg.get(i));
        proof {
            assert(cfg@.take(i + 1) =~= cfg@.take(i as int).push(cfg@[i as int]));
            lemma_actions_encode_push(cfg@.take(i as int), cfg@[i as int]);
            assert(base + spec_actions_encode(cfg@.take(i as int)) + spec_action_encode(
                cfg@[i as int],
            ) =~= base + spec_actions_encode(cfg@.take(i + 1)));
        }
        i = i + 1;
    }
    proof {
        assert(cfg@.take(n as int) =~= cfg@);
    }
}

/// Appends one slider configuration's encoding: element count, then each
/// process name as a length-prefixed UTF-8 string.
pub(crate) fn encode_slider_config<const N: usize>(buf: &mut Vec<u8>, cfg: &SliderConfig<N>)
    requires
        cfg.wf(),
    ensures
        final(buf)@ == old(buf)@ + spec_u64_to_le_bytes(cfg@.len() as u64)
            + spec_strings_encode(cfg@),
        forall|k: int| 0 <= k < cfg@.len() ==> wf_string(#[trigger] cfg@[k]),
        cfg@.len() <= N,
{
    let n = cfg.len();
    push_u64(buf, n as u64);
    let ghost base = buf@;
    let mut i: usize = 0;
    while i < n
        invariant
            n == cfg@.len(),
            cfg.wf(),
            i <= n,
            buf@ == base + spec_strings_encode(cfg@.take(i as int)),
            forall|k: int| 0 <= k < i ==> wf_string(#[trigger] cfg@[k]),
        decreases n - i,
    {
        let name_bytes = cfg.get(i).host_process().as_str().as_bytes_vec();
        assert(name_bytes@ == encode_utf8(cfg@[i as int]));
        push_u64(buf, name_bytes.len() as u64);
        buf.extend_from_slice(name_bytes.as_slice());
        proof {
            assert(buf@ =~= base + spec_strings_encode(cfg@.take(i as int))
                + spec_string_encode(cfg@[i as int]));
            assert(cfg@.take(i + 1) =~= cfg@.take(i as int).push(cfg@[i as int]));
            lemma_strings_encode_push(cfg@.take(i as int), cfg@[i as int]);
            assert(base + spec_strings_encode(cfg@.take(i as int)) + spec_string_encode(
                cfg@[i as int],
            ) =~= base + spec_strings_encode(cfg@.take(i + 1)));
        }
        i = i + 1;
    }
    proof {
        assert(cfg@.take(n as int) =~= cfg@);
    }
}

/// Appends a whole configuration's encoding.
pub(crate) fn encode_config(buf: &mut Vec<u8>, cfg: &Config)
    requires
        cfg.wf(),
    ensures
        final(buf)@ == old(buf)@ + spec_config_encode(cfg@),
        wf_config(cfg@),
{
    proof {
        cfg.lemma_wf_parts();
    }
    encode_btn_config(buf, &cfg.hw_btn_cfg);
    encode_btn_config(buf, &cfg.sw_btn_cfg);
    encode_slider_config(buf, &cfg.slider_cfg);
    proof {
        assert(final(buf)@ =~= old(buf)@ + spec_config_encode(cfg@));
    }
}

/// Appends one slider level run's encoding.
pub(crate) fn encode_levels(buf: &mut Vec<u8>, levels: &AudioLvls)
    ensures
        final(buf)@ == old(buf)@ + spec_levels_encode(levels@),
{
    proof {
        levels.lemma_view_len();
    }
    let ghost base = buf@;
    let mut i: usize = 0;
    while i < N_SLIDERS
        invariant
            levels@.len() == N_SLIDERS,
            i <= N_SLIDERS,
            buf@ == base + spec_levels_encode(levels@.take(i as int)),
        decreases N_SLIDERS - i,
    {
        push_u16(buf, levels.level(i));
        proof {
            assert(levels@.take(i + 1) =~= levels@.take(i as int).push(levels@[i as int]));
            lemma_levels_encode_push(levels@.take(i as int), levels@[i as int]);
            assert(base + spec_levels_encode(levels@.take(i as int)) + spec_u16_to_le_bytes(
                levels@[i as int],
            ) =~= base + spec_levels_encode(levels@.take(i + 1)));
        }
        i = i + 1;
    }
    proof {
        assert(levels@.take(N_SLIDERS as int) =~= levels@);
    }
}

// ---------------------------------------------------------------------------
// Executable decoder
// ---------------------------------------------------------------------------

/// Relies on `String::from_utf8`: it succeeds exactly when the bytes are
/// valid UTF-8, and the resulting string's characters are their decoding.
#[verifier::external_body]
fn string_from_utf8(bytes: Vec<u8>) -> (r: Option<String>)
    ensures
        r is Some <==> valid_utf8(bytes@),
        r matches Some(st) ==> st@ == decode_utf8(bytes@),
{
    String::from_utf8(bytes).ok()
}

/// Reads one byte.
fn take_u8(s: &[u8], pos: usize) -> (r: Option<(u8, usize)>)
    requires
        pos <= s@.len(),
    ensures
        match r {
            Some((v, end)) => spec_take_u8(s@, pos as int) == Some((v, end as int)) && end
                <= s@.len(),
            None => spec_take_u8(s@, pos as int) is None,
        },
{
    if s.len() - pos >= 1 {
        Some((s[pos], pos + 1))
    } else {
        None
    }
}

/// Reads a little-endian 16-bit value.
fn take_u16(s: &[u8], pos: usize) -> (r: Option<(u16, usize)>)
    requires
        pos <= s@.len(),
    ensures
        match r {
            Some((v, end)) => spec_take_u16(s@, pos as int) == Some((v, end as int)) && end
                <= s@.len(),
            None => spec_take_u16(s@, pos as int) is None,
        },
{
    if s.len() - pos >= 2 {
        let v = vstd::bytes::u16_from_le_bytes(vstd::slice::slice_subrange(s, pos, pos + 2));
        Some((v, pos + 2))
    } else {
        None
    }
}

/// Reads a little-endian 64-bit value.
fn take_u64(s: &[u8], pos: usize) -> (r: Option<(u64, usize)>)
    requires
        pos <= s@.len(),
    ensures
        match r {
            Some((v, end)) => spec_take_u64(s@, pos as int) == Some((v, end as int)) && end
                <= s@.len(),
            None => spec_take_u64(s@, pos as int) is None,
        },
{
    if s.len() - pos >= 8 {
        let v = vstd::bytes::u64_from_le_bytes(vstd::slice::slice_subrange(s, pos, pos + 8));
        Some((v, pos + 8))
    } else {
        None
    }
}

/// Decodes one action.
pub(crate) fn decode_action(s: &[u8], pos: usize) -> (r: Option<(Action, usize)>)
    requires
        pos <= s@.len(),
    ensures
        match r {
            Some((a, end)) => spec_action_decode(s@, pos as int) == Some((a@, end as int))
                && end <= s@.len(),
            None => spec_action_decode(s@, pos as int) is None,
        },
{
    let (tag, j) = match take_u8(s, pos) {
        None => {
            return None;
        },
        Some(x) => x,
    };
    if tag == 0 {
        match take_u8(s, j) {
            None => None,
            Some((idx, k)) => Some((Action::Command(idx), k)),
        }
    } else if tag == 1 {
        let (n, k) = match take_u64(s, j) {
            None => {
                return None;
            },
            Some(x) => x,
        };
        if n <= (s.len() - k) as u64 {
            let m = k + n as usize;
            let codes = vstd::slice::slice_to_vec(vstd::slice::slice_subrange(s, k, m));
            Some((Action::KbdHid(codes), m))
        } else {
            None
        }
    } else if tag == 2 {
        match take_u16(s, j) {
            None => None,
            Some((code, k)) => Some((Action::MediaHid(code), k)),
        }
    } else {
        None
    }
}

/// Decodes one length-prefixed UTF-8 string.
fn decode_string(s: &[u8], pos: usize) -> (r: Option<(String, usize)>)
    requires
        pos <= s@.len(),
    ensures
        match r {
            Some((st, end)) => spec_string_decode(s@, pos as int) == Some((st@, end as int))
                && end <= s@.len(),
            None => spec_string_decode(s@, pos as int) is None,
        },
{
    let (n, j) = match take_u64(s, pos) {
        None => {
            return None;
        },
        Some(x) => x,
    };
    if n <= (s.len() - j) as u64 {
        let m = j + n as usize;
        let bytes = vstd::slice::slice_to_vec(vstd::slice::slice_subrange(s, j, m));
        match string_from_utf8(bytes) {
            Some(st) => Some((st, m)),
            None => None,
        }
    } else {
        None
    }
}

/// Joins an already-decoded prefix with the outcome of decoding the rest of
/// a list.
spec fn spec_join<T>(prefix: Seq<T>, rest: Option<(Seq<T>, int)>) -> Option<
    (Seq<T>, int),
> {
    match rest {
        None => None,
        Some((r, end)) => Some((prefix + r, end)),
    }
}

/// Decodes a counted action list into a button configuration.
pub(crate) fn decode_btn_config<const N: usize>(s: &[u8], pos: usize) -> (r: Option<
    (BtnConfig<N>, usize),
>)
    requires
        pos <= s@.len(),
    ensures
        match r {
            Some((cfg, end)) => cfg.wf() && end <= s@.len() && spec_action_list_decode(
                s@,
                pos as int,
                N as int,
            ) == Some((cfg@, end as int)),
            None => spec_action_list_decode(s@, pos as int, N as int) is None,
        },
{
    let (n64, j) = match take_u64(s, pos) {
        None => {
            return None;
        },
        Some(x) => x,
    };
    if n64 > N as u64 {
        return None;
    }
    let n = n64 as usize;
    let mut items: Vec<Action> = Vec::new();
    let mut cur: usize = j;
    let mut k: usize = 0;
    proof {
        if spec_actions_decode(s@, j as int, n as nat) is Some {
            let (rs, e) = spec_actions_decode(s@, j as int, n as nat)->Some_0;
            assert(Seq::<ActionView>::empty() + rs =~= rs);
        }
        assert(items@.map_values(|a: Action| a@) =~= Seq::<ActionView>::empty());
    }
    while k < n
        invariant
            n <= N,
            k <= n,
            cur <= s@.len(),
            items@.len() == k,
            spec_action_list_decode(s@, pos as int, N as int) == spec_join(
                items@.map_values(|a: Action| a@),
                spec_actions_decode(s@, cur as int, (n - k) as nat),
            ),
        decreases n - k,
    {
        let ghost prefix = items@.map_values(|a: Action| a@);
        let ghost m: nat = (n - k) as nat;
        match decode_action(s, cur) {
            None => {
                proof {
                    assert(spec_actions_decode(s@, cur as int, m) is None);
                }
                return None;
            },
            Some((a, nxt)) => {
                proof {
                    let rest = spec_actions_decode(s@, nxt as int, (m - 1) as nat);
                    assert(spec_actions_decode(s@, cur as int, m) == match rest {
                        None => None,
                        Some((rs, e)) => Some((seq![a@] + rs, e)),
                    });
                    if rest is Some {
                        let (rs, e) = rest->Some_0;
                        assert(prefix + (seq![a@] + rs) =~= prefix.push(a@) + rs);
                    }
                    assert(items@.push(a).map_values(|x: Action| x@) =~= prefix.push(a@));
                }
                items.push(a);
                cur = nxt;
                k = k + 1;
            },
        }
    }
    proof {
        assert(spec_actions_decode(s@, cur as int, 0) == Some((Seq::<ActionView>::empty(),
            cur as int)));
        assert(items@.map_values(|a: Action| a@) + Seq::<ActionView>::empty()
            =~= items@.map_values(|a: Action| a@));
    }
    Some((BtnConfig::from_actions(items), cur))
}

/// Decodes a counted string list into a slider configuration.
pub(crate) fn decode_slider_config<const N: usize>(s: &[u8], pos: usize) -> (r: Option<
    (SliderConfig<N>, usize),
>)
    requires
        pos <= s@.len(),
    ensures
        match r {
            Some((cfg, end)) => cfg.wf() && end <= s@.len() && spec_string_list_decode(
                s@,
                pos as int,
                N as int,
            ) == Some((cfg@, end as int)),
            None => spec_string_list_decode(s@, pos as int, N as int) is None,
        },
{
    let (n64, j) = match take_u64(s, pos) {
        None => {
            return None;
        },
        Some(x) => x,
    };
    if n64 > N as u64 {
        return None;
    }
    let n = n64 as usize;
    let mut items: Vec<Slider> = Vec::new();
    let mut cur: usize = j;
    let mut k: usize = 0;
    proof {
        if spec_strings_decode(s@, j as int, n as nat) is Some {
            let (rs, e) = spec_strings_decode(s@, j as int, n as nat)->Some_0;
            assert(Seq::<Seq<char>>::empty() + rs =~= rs);
        }
        assert(items@.map_values(|x: Slider| x@) =~= Seq::<Seq<char>>::empty());
    }
    while k < n
        invariant
            n <= N,
            k <= n,
            cur <= s@.len(),
            items@.len() == k,
            spec_string_list_decode(s@, pos as int, N as int) == spec_join(
                items@.map_values(|x: Slider| x@),
                spec_strings_decode(s@, cur as int, (n - k) as nat),
            ),
        decreases n - k,
    {
        let ghost prefix = items@.map_values(|x: Slider| x@);
        let ghost m: nat = (n - k) as nat;
        match decode_string(s, cur) {
            None => {
                proof {
                    assert(spec_strings_decode(s@, cur as int, m) is None);
                }
                return None;
            },
            Some((st, nxt)) => {
                let slider = Slider::new(st);
                proof {
                    let rest = spec_strings_decode(s@, nxt as int, (m - 1) as nat);
                    assert(spec_strings_decode(s@, cur as int, m) == match rest {
                        None => None,
                        Some((rs, e)) => Some((seq![slider@] + rs, e)),
                    });
                    if rest is Some {
                        let (rs, e) = rest->Some_0;
                        assert(prefix + (seq![slider@] + rs) =~= prefix.push(slider@) + rs);
                    }
                    assert(items@.push(slider).map_values(|x: Slider| x@) =~= prefix.push(
                        slider@,
                    ));
                }
                items.push(slider);
                cur = nxt;
                k = k + 1;
            },
        }
    }
    proof {
        assert(spec_strings_decode(s@, cur as int, 0) == Some((Seq::<Seq<char>>::empty(),
            cur as int)));
        assert(items@.map_values(|x: Slider| x@) + Seq::<Seq<char>>::empty()
            =~= items@.map_values(|x: Slider| x@));
    }
    Some((SliderConfig::from_sliders(items), cur))
}

/// Decodes a whole configuration.
pub(crate) fn decode_config(s: &[u8], pos: usize) -> (r: Option<(Config, usize)>)
    requires
        pos <= s@.len(),
    ensures
        match r {
            Some((cfg, end)) => cfg.wf() && end <= s@.len() && spec_config_decode(
                s@,
                pos as int,
            ) == Some((cfg@, end as int)),
            None => spec_config_decode(s@, pos as int) is None,
        },
{
    let (hw, j2) = match decode_btn_config::<N_HWB>(s, pos) {
        None => {
            return None;
        },
        Some(x) => x,
    };
    let (sw, j4) = match decode_btn_config::<N_SWB>(s, j2) {
        None => {
            return None;
        },
        Some(x) => x,
    };
    let (sliders, j6) = match decode_slider_config::<N_SLIDERS>(s, j4) {
        None => {
            return None;
        },
        Some(x) => x,
    };
    let cfg = Config::new(hw, sw, sliders);
    Some((cfg, j6))
}

/// Decodes the fixed-size slider level run.
pub(crate) fn decode_levels(s: &[u8], pos: usize) -> (r: Option<(AudioLvls, usize)>)
    requires
        pos <= s@.len(),
    ensures
        match r {
            Some((l, end)) => end <= s@.len() && spec_levels_decode(
                s@,
                pos as int,
                N_SLIDERS as nat,
            ) == Some((l@, end as int)),
            None => spec_levels_decode(s@, pos as int, N_SLIDERS as nat) is None,
        },
{
    let (v0, p1) = match take_u16(s, pos) {
        None => {
            return None;
        },
        Some(x) => x,
    };
    let (v1, p2) = match take_u16(s, p1) {
        None => {
            return None;
        },
        Some(x) => x,
    };
    let (v2, p3) = match take_u16(s, p2) {
        None => {
            return None;
        },
        Some(x) => x,
    };
    let (v3, p4) = match take_u16(s, p3) {
        None => {
            return None;
        },
        Some(x) => x,
    };
    let (v4, p5) = match take_u16(s, p4) {
        None => {
            return None;
        },
        Some(x) => x,
    };
    let levels = AudioLvls::from_parts(v0, v1, v2, v3, v4);
    proof {
        assert(spec_levels_decode(s@, p5 as int, 0) == Some(
            (Seq::<u16>::empty(), p5 as int),
        ));
        assert(seq![v4] + Seq::<u16>::empty() =~= seq![v4]);
        assert(spec_levels_decode(s@, p4 as int, 1) == Some((seq![v4], p5 as int)));
        assert(seq![v3] + seq![v4] =~= seq![v3, v4]);
        assert(spec_levels_decode(s@, p3 as int, 2) == Some((seq![v3, v4], p5 as int)));
        assert(seq![v2] + seq![v3, v4] =~= seq![v2, v3, v4]);
        assert(spec_levels_decode(s@, p2 as int, 3) == Some((seq![v2, v3, v4], p5 as int)));
        assert(seq![v1] + seq![v2, v3, v4] =~= seq![v1, v2, v3, v4]);
        assert(spec_levels_decode(s@, p1 as int, 4) == Some(
            (seq![v1, v2, v3, v4], p5 as int),
        ));
        assert(seq![v0] + seq![v1, v2, v3, v4] =~= seq![v0, v1, v2, v3, v4]);
        assert(spec_levels_decode(s@, pos as int, 5) == Some(
            (seq![v0, v1, v2, v3, v4], p5 as int),
        ));
    }
    Some((levels, p5))
}

/// Decodes one message standing at the start of the buffer.
pub(crate) fn decode_message_at(s: &[u8]) -> (r: Option<(Message, usize)>)
    ensures
        match r {
            Some((m, end)) => m.wf() && end <= s@.len() && spec_message_decode_at(s@, 0)
                == Some((m@, end as int)),
            None => spec_message_decode_at(s@, 0) is None,
        },
{
    let (tag, j) = match take_u8(s, 0) {
        None => {
            return None;
        },
        Some(x) => x,
    };
    if tag == 0 {
        match decode_config(s, j) {
            None => None,
            Some((cfg, end)) => Some((Message::StartupConfiguration(cfg), end)),
        }
    } else if tag == 1 {
        let (idx, k) = match take_u8(s, j) {
            None => {
                return None;
            },
            Some(x) => x,
        };
        match decode_action(s, k) {
            None => None,
            Some((a, end)) => Some((Message::EditSWBtn(idx, a), end)),
        }
    } else if tag == 2 {
        let (idx, k) = match take_u8(s, j) {
            None => {
                return None;
            },
            Some(x) => x,
        };
        match decode_action(s, k) {
            None => None,
            Some((a, end)) => Some((Message::EditHWBtn(idx, a), end)),
        }
    } else if tag == 3 {
        match decode_action(s, j) {
            None => None,
            Some((a, end)) => Some((Message::BtnPress(a), end)),
        }
    } else if tag == 4 {
        match decode_levels(s, j) {
            None => None,
            Some((l, end)) => Some((Message::AudioLvls(l), end)),
        }
    } else {
        None
    }
}

} // verus!
