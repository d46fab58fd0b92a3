//! Matching a window's class name, as the host reports it, against the name
//! a selector was made for.
//!
//! The host reports a name as UTF-16 code units; a selector holds its name
//! as a string. The two match when they are the same name: the report is
//! the UTF-16 encoding of the string.

use vstd::prelude::*;
use vstd::string::StrSliceExecFns;
use vstd::utf8::char_u32_cast;

verus! {

/// The UTF-16 code units of one character: the character itself below
/// U+10000, a surrogate pair from there on.
pub open spec fn encode_utf16_char(c: char) -> Seq<u16> {
    let v = c as u32;
    if v < 0x10000 {
        seq![v as u16]
    } else {
        seq![
            (0xD800 + (v - 0x10000) / 0x400) as u16,
            (0xDC00 + (v - 0x10000) % 0x400) as u16,
        ]
    }
}

/// The UTF-16 encoding of a character sequence.
pub open spec fn encode_utf16(chars: Seq<char>) -> Seq<u16>
    decreases chars.len(),
{
    if chars.len() == 0 {
        seq![]
    } else {
        encode_utf16_char(chars[0]) + encode_utf16(chars.drop_first())
    }
}

/// Whether the code units that the host reported as a window's class name
/// name the class `class`: the report is not empty, and it is the UTF-16
/// encoding of `class`. The comparison is exact: same characters, same
/// case, same length.
pub open spec fn class_matches(units: Seq<u16>, class: Seq<char>) -> bool {
    &&& units.len() != 0
    &&& units == encode_utf16(class)
}

/// Whether `units` holds the characters of `class` one per code unit, and
/// at least one.
pub open spec fn unit_for_unit(units: Seq<u16>, class: Seq<char>) -> bool {
    &&& class.len() != 0
    &&& units.len() == class.len()
    &&& forall|i: int| 0 <= i < class.len() ==> units[i] as u32 == #[trigger] class[i] as u32
}

/// Whether a code unit is the first of a surrogate pair.
pub open spec fn is_high_surrogate(unit: u16) -> bool {
    0xD800 <= unit <= 0xDBFF
}

/// The code units of a character: one unit that is the character and no
/// surrogate, or a high surrogate followed by a low one.
proof fn lemma_char_units(c: char)
    ensures
        c as u32 <= 0x10FFFF,
        c as u32 >= 0x10000 <==> is_high_surrogate(encode_utf16_char(c)[0]),
        c as u32 >= 0x10000 ==> {
            &&& encode_utf16_char(c).len() == 2
            &&& 0xDC00 <= encode_utf16_char(c)[1] <= 0xDFFF
            &&& c as u32 == 0x10000 + (encode_utf16_char(c)[0] - 0xD800) * 0x400 + (
            encode_utf16_char(c)[1] - 0xDC00)
        },
        (c as u32) < 0x10000 ==> {
            &&& encode_utf16_char(c).len() == 1
            &&& encode_utf16_char(c)[0] == c as u32
        },
{
}

/// A character is known by its code units.
proof fn lemma_char_known_by_units(a: char, b: char)
    requires
        encode_utf16_char(a) == encode_utf16_char(b),
    ensures
        a == b,
{
    lemma_char_units(a);
    lemma_char_units(b);
    assert(encode_utf16_char(a)[0] == encode_utf16_char(b)[0]);
    if a as u32 >= 0x10000 {
        assert(encode_utf16_char(a)[1] == encode_utf16_char(b)[1]);
    }
    assert(a as u32 == b as u32);
    char_u32_cast(a, a as u32);
    char_u32_cast(b, b as u32);
}

/// The encoding of what is left of a sequence is the encoding of its next
/// character, followed by the encoding of what is left after it.
proof fn lemma_encoding_unfolds(chars: Seq<char>, from: int)
    requires
        0 <= from < chars.len(),
    ensures
        encode_utf16(chars.skip(from)) == encode_utf16_char(chars[from]) + encode_utf16(
            chars.skip(from + 1),
        ),
{
    assert(chars.skip(from).drop_first() =~= chars.skip(from + 1));
}

/// A name is known by its report: two names with the same UTF-16 encoding
/// are the same name.
pub proof fn lemma_utf16_injective(a: Seq<char>, b: Seq<char>)
    requires
        encode_utf16(a) == encode_utf16(b),
    ensures
        a == b,
    decreases a.len(),
{
    if a.len() == 0 {
        if b.len() != 0 {
            lemma_char_units(b[0]);
            assert(encode_utf16(b).len() >= encode_utf16_char(b[0]).len());
        }
        assert(a =~= b);
    } else {
        lemma_char_units(a[0]);
        let head_a = encode_utf16_char(a[0]);
        let rest_a = encode_utf16(a.drop_first());
        assert(encode_utf16(a) == head_a + rest_a);
        assert(encode_utf16(a).len() > 0);
        assert(b.len() != 0);
        lemma_char_units(b[0]);
        let head_b = encode_utf16_char(b[0]);
        let rest_b = encode_utf16(b.drop_first());
        assert(encode_utf16(b) == head_b + rest_b);
        assert((head_a + rest_a)[0] == head_a[0]);
        assert((head_b + rest_b)[0] == head_b[0]);
        assert(head_a.len() == head_b.len());
        assert(head_a =~= head_b) by {
            assert forall|i: int| 0 <= i < head_a.len() implies head_a[i] == head_b[i] by {
                assert((head_a + rest_a)[i] == head_a[i]);
                assert((head_b + rest_b)[i] == head_b[i]);
            }
        }
        assert(rest_a =~= rest_b) by {
            assert forall|i: int| 0 <= i < rest_a.len() implies rest_a[i] == rest_b[i] by {
                assert((head_a + rest_a)[head_a.len() + i] == rest_a[i]);
                assert((head_b + rest_b)[head_b.len() + i] == rest_b[i]);
            }
            assert(rest_a.len() == (head_a + rest_a).len() - head_a.len());
            assert(rest_b.len() == (head_b + rest_b).len() - head_b.len());
        }
        lemma_char_known_by_units(a[0], b[0]);
        lemma_utf16_injective(a.drop_first(), b.drop_first());
        assert(a =~= seq![a[0]] + a.drop_first());
        assert(b =~= seq![b[0]] + b.drop_first());
    }
}

/// A report names one class and no other: the names that a report matches
/// are all the same name. And every name but the empty one is matched by
/// its own encoding, whatever characters it holds.
pub proof fn lemma_match_is_equality(units: Seq<u16>, class: Seq<char>, other: Seq<char>)
    ensures
        class_matches(units, class) && class_matches(units, other) ==> class == other,
        class.len() != 0 ==> class_matches(encode_utf16(class), class),
        class.len() != 0 && class_matches(encode_utf16(class), other) ==> class == other,
{
    if class_matches(units, class) && class_matches(units, other) {
        lemma_utf16_injective(class, other);
    }
    if class.len() != 0 {
        lemma_char_units(class[0]);
        assert(encode_utf16(class).len() >= encode_utf16_char(class[0]).len());
        if class_matches(encode_utf16(class), other) {
            lemma_utf16_injective(class, other);
        }
    }
}

/// Whether every character of `chars` lies below U+10000, where a character
/// takes one code unit.
pub open spec fn in_basic_plane(chars: Seq<char>) -> bool {
    forall|i: int| 0 <= i < chars.len() ==> ((#[trigger] chars[i]) as u32) < 0x10000
}

/// The UTF-16 encoding of a sequence of characters below U+10000 holds its
/// characters one per code unit.
proof fn lemma_utf16_of_single_units(chars: Seq<char>)
    requires
        in_basic_plane(chars),
    ensures
        encode_utf16(chars).len() == chars.len(),
        forall|i: int|
            0 <= i < chars.len() ==> #[trigger] encode_utf16(chars)[i] as u32 == chars[i] as u32,
    decreases chars.len(),
{
    if chars.len() != 0 {
        let rest = chars.drop_first();
        lemma_char_units(chars[0]);
        assert forall|i: int| 0 <= i < rest.len() implies ((#[trigger] rest[i]) as u32)
            < 0x10000 by {
            assert(rest[i] == chars[i + 1]);
        }
        lemma_utf16_of_single_units(rest);
        assert forall|i: int| 0 <= i < chars.len() implies #[trigger] encode_utf16(chars)[i] as u32
            == chars[i] as u32 by {
            if i > 0 {
                assert(encode_utf16(chars)[i] == encode_utf16(rest)[i - 1]);
                assert(chars[i] == rest[i - 1]);
            }
        }
    }
}

/// For a name without characters from U+10000 on, the match can be read off
/// unit by unit: a report names it exactly when it holds the name's
/// characters, one per code unit.
pub proof fn lemma_basic_plane_match_is_unit_for_unit(units: Seq<u16>, class: Seq<char>)
    requires
        in_basic_plane(class),
    ensures
        class_matches(units, class) <==> unit_for_unit(units, class),
{
    lemma_utf16_of_single_units(class);
    if unit_for_unit(units, class) {
        assert(units =~= encode_utf16(class));
    }
}

/// Whether `units`, from the place `at` on, is the encoding of `chars` from
/// the place `from` on.
spec fn rest_matches(units: Seq<u16>, at: int, chars: Seq<char>, from: int) -> bool {
    units.skip(at) == encode_utf16(chars.skip(from))
}

/// The report matches from one character on exactly when it holds that
/// character's code units there and matches from the next character on.
proof fn lemma_rest_matches_step(units: Seq<u16>, at: int, chars: Seq<char>, from: int)
    requires
        0 <= at <= units.len(),
        0 <= from < chars.len(),
    ensures
        ({
            let head = encode_utf16_char(chars[from]);
            rest_matches(units, at, chars, from) <==> {
                &&& at + head.len() <= units.len()
                &&& forall|i: int| 0 <= i < head.len() ==> units[at + i] == head[i]
                &&& rest_matches(units, at + head.len(), chars, from + 1)
            }
        }),
{
    let head = encode_utf16_char(chars[from]);
    let tail = encode_utf16(chars.skip(from + 1));
    lemma_encoding_unfolds(chars, from);
    lemma_char_units(chars[from]);
    let left = units.skip(at);
    if rest_matches(units, at, chars, from) {
        assert(left == head + tail);
        assert(left.len() == head.len() + tail.len());
        assert forall|i: int| 0 <= i < head.len() implies units[at + i] == head[i] by {
            assert(left[i] == (head + tail)[i]);
        }
        assert(units.skip(at + head.len()) =~= tail) by {
            assert forall|i: int| 0 <= i < tail.len() implies units.skip(at + head.len())[i]
                == tail[i] by {
                assert(left[head.len() + i] == (head + tail)[head.len() + i]);
            }
        }
    }
    if at + head.len() <= units.len() && (forall|i: int|
        0 <= i < head.len() ==> units[at + i] == head[i]) && rest_matches(
        units,
        at + head.len(),
        chars,
        from + 1,
    ) {
        assert(left =~= head + tail) by {
            assert forall|i: int| 0 <= i < left.len() implies left[i] == (head + tail)[i] by {
                if i >= head.len() {
                    assert(units.skip(at + head.len())[i - head.len()] == tail[i - head.len()]);
                }
            }
        }
    }
}

/// Decides whether the class name `units`, as the host reported it for some
/// window, is the name `class`.
pub fn is_class_matched(units: &[u16], class: &str) -> (matched: bool)
    ensures
        matched == class_matches(units@, class@),
{
    let count = units.len();
    if count == 0 {
        return false;
    }
    let chars = class.unicode_len();
    let mut at: usize = 0;
    let mut from: usize = 0;
    assert(units@.skip(0) =~= units@ && class@.skip(0) =~= class@);
    while from < chars
        invariant
            count == units@.len(),
            count != 0,
            chars == class@.len(),
            from <= chars,
            at <= count,
            class_matches(units@, class@) <==> rest_matches(
                units@,
                at as int,
                class@,
                from as int,
            ),
        decreases chars - from,
    {
        let c = class.get_char(from);
        let v: u32 = c as u32;
        proof {
            lemma_char_units(c);
            lemma_rest_matches_step(units@, at as int, class@, from as int);
        }
        if v < 0x10000 {
            if at >= count || units[at] != v as u16 {
                return false;
            }
            at += 1;
        } else {
            if count - at < 2 {
                return false;
            }
            let high: u16 = (0xD800 + (v - 0x10000) / 0x400) as u16;
            let low: u16 = (0xDC00 + (v - 0x10000) % 0x400) as u16;
            if units[at] != high || units[at + 1] != low {
                return false;
            }
            at += 2;
        }
        from += 1;
    }
    proof {
        let left = units@.skip(at as int);
        let none = encode_utf16(class@.skip(from as int));
        assert(none.len() == 0);
        assert(left.len() == count - at);
        assert(left.len() == 0 ==> left =~= none);
    }
    at == count
}

} // verus!
