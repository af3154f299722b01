use vstd::prelude::*;

verus! {

broadcast use vstd::string::axiom_spec_iter;

/// A colour with 8-bit red, green, blue and alpha channels.
#[derive(Clone, Copy)]
pub struct Color {
    pub r: u8,
    pub g: u8,
    pub b: u8,
    pub a: u8,
}

/// The number of UTF-16 code units the surface's text buffer holds.
pub const TEXT_BUFFER_LEN: usize = 512;

/// The UTF-16 code units of one character: one unit below U+10000, else a
/// surrogate pair.
pub open spec fn utf16_of_char(c: char) -> Seq<u16> {
    let v: u32 = c as u32;
    if v < 0x10000 {
        seq![v as u16]
    } else {
        seq![(0xD800 + (v - 0x10000) / 0x400) as u16, (0xDC00 + (v - 0x10000) % 0x400) as u16]
    }
}

/// The UTF-16 encoding of a character sequence.
pub open spec fn utf16_encode(s: Seq<char>) -> Seq<u16>
    decreases s.len(),
{
    if s.len() == 0 {
        Seq::empty()
    } else {
        utf16_encode(s.drop_last()) + utf16_of_char(s.last())
    }
}

/// Law: the UTF-16 units of one character. A character below U+10000 is
/// one unit equal to its code point; any other is a high surrogate
/// (`0xD800..=0xDBFF`) followed by a low surrogate (`0xDC00..=0xDFFF`) from
/// which its code point is recovered as
/// `0x10000 + (high - 0xD800) * 0x400 + (low - 0xDC00)`.
pub proof fn lemma_utf16_of_char(c: char)
    ensures
        (c as u32) < 0x10000 ==> utf16_of_char(c).len() == 1 && utf16_of_char(c)[0] as u32
            == c as u32,
        (c as u32) >= 0x10000 ==> {
            &&& utf16_of_char(c).len() == 2
            &&& 0xD800 <= utf16_of_char(c)[0] <= 0xDBFF
            &&& 0xDC00 <= utf16_of_char(c)[1] <= 0xDFFF
            &&& 0x10000 + (utf16_of_char(c)[0] - 0xD800) * 0x400 + (utf16_of_char(c)[1] - 0xDC00)
                == c as u32
        },
{
    let v: u32 = c as u32;
    vstd::utf8::char_is_scalar(c);
    if v >= 0x10000 {
        let w: int = v - 0x10000;
        assert(v <= 0x10FFFF);
        assert(0 <= w / 0x400 < 0x400);
        assert((w / 0x400) * 0x400 + w % 0x400 == w);
    }
}

/// The standard UTF-16 decoding of a sequence of units, read from the end: a
/// low surrogate preceded by a high surrogate is one character, any other
/// unit stands for the character with its value.
pub open spec fn utf16_decode(units: Seq<u16>) -> Seq<char>
    decreases units.len(),
{
    if units.len() == 0 {
        Seq::empty()
    } else if units.len() >= 2 && 0xDC00 <= units.last() <= 0xDFFF && 0xD800 <= units[units.len()
        - 2] <= 0xDBFF {
        utf16_decode(units.take(units.len() - 2)).push(
            ((0x10000 + (units[units.len() - 2] - 0xD800) * 0x400 + (units.last() - 0xDC00)) as u32)
                as char,
        )
    } else {
        utf16_decode(units.drop_last()).push((units.last() as u32) as char)
    }
}

/// Law: decoding the UTF-16 encoding of a text gives the text back.
pub proof fn lemma_utf16_roundtrip(s: Seq<char>)
    ensures
        utf16_decode(utf16_encode(s)) == s,
    decreases s.len(),
{
    if s.len() > 0 {
        let prefix = s.drop_last();
        let c = s.last();
        lemma_utf16_roundtrip(prefix);
        lemma_utf16_of_char(c);
        let e = utf16_encode(prefix);
        let u = utf16_encode(s);
        assert(u == e + utf16_of_char(c));
        if (c as u32) < 0x10000 {
            assert(u.drop_last() =~= e);
            assert(u.last() as u32 == c as u32);
            vstd::utf8::char_is_scalar(c);
            assert(!(0xD800 <= c as u32 <= 0xDFFF));
            vstd::utf8::char_u32_cast(c, u.last() as u32);
        } else {
            assert(u.take(u.len() - 2) =~= e);
            let x: u32 = (0x10000 + (u[u.len() - 2] - 0xD800) * 0x400 + (u.last() - 0xDC00)) as u32;
            vstd::utf8::char_u32_cast(c, x);
        }
        assert(s =~= prefix.push(c));
    }
}

/// Law: a text whose characters are all below U+10000 is encoded one unit per
/// character, each unit equal to the character's code point.
pub proof fn lemma_utf16_bmp_text(s: Seq<char>)
    requires
        forall|i: int| 0 <= i < s.len() ==> (#[trigger] s[i] as u32) < 0x10000,
    ensures
        utf16_encode(s).len() == s.len(),
        forall|i: int| 0 <= i < s.len() ==> #[trigger] utf16_encode(s)[i] as u32 == s[i] as u32,
    decreases s.len(),
{
    if s.len() > 0 {
        let prefix = s.drop_last();
        assert forall|i: int| 0 <= i < prefix.len() implies (#[trigger] prefix[i] as u32)
            < 0x10000 by {
            assert(prefix[i] == s[i]);
        }
        lemma_utf16_bmp_text(prefix);
        lemma_utf16_of_char(s.last());
        assert((s[s.len() - 1] as u32) < 0x10000);
        assert forall|i: int| 0 <= i < s.len() implies #[trigger] utf16_encode(s)[i] as u32
            == s[i] as u32 by {
            if i < s.len() - 1 {
                assert(prefix[i] == s[i]);
            }
        }
    }
}

/// The text as the surface draws it: a zero-filled buffer of
/// `TEXT_BUFFER_LEN` UTF-16 units, of which the first `len` hold the text.
pub struct TextBuffer {
    pub units: Vec<u16>,
    pub len: usize,
}

/// The first `TEXT_BUFFER_LEN` units of `s` (all of them when fewer).
pub open spec fn clip(s: Seq<u16>) -> Seq<u16> {
    if s.len() <= TEXT_BUFFER_LEN {
        s
    } else {
        s.take(TEXT_BUFFER_LEN as int)
    }
}

proof fn lemma_clip_push(s: Seq<u16>, x: u16)
    ensures
        clip(s.push(x)) == (if clip(s).len() < TEXT_BUFFER_LEN {
            clip(s).push(x)
        } else {
            clip(s)
        }),
{
    if s.len() >= TEXT_BUFFER_LEN {
        assert(s.push(x).take(TEXT_BUFFER_LEN as int) =~= s.take(TEXT_BUFFER_LEN as int));
    }
}

proof fn lemma_clip_append(s: Seq<u16>, t: Seq<u16>)
    ensures
        clip(s + t) == clip(clip(s) + t),
    decreases t.len(),
{
    if t.len() > 0 {
        let t0 = t.drop_last();
        lemma_clip_append(s, t0);
        assert(s + t =~= (s + t0).push(t.last()));
        assert(clip(s) + t =~= (clip(s) + t0).push(t.last()));
        lemma_clip_push(s + t0, t.last());
        lemma_clip_push(clip(s) + t0, t.last());
    } else {
        assert(s + t =~= s);
        assert(clip(s) + t =~= clip(s));
    }
}

fn push_clipped(units: &mut Vec<u16>, x: u16)
    ensures
        final(units)@ == (if old(units)@.len() < TEXT_BUFFER_LEN {
            old(units)@.push(x)
        } else {
            old(units)@
        }),
{
    if units.len() < TEXT_BUFFER_LEN {
        units.push(x);
    }
}

/// Encodes `text` as UTF-16 into a buffer of `TEXT_BUFFER_LEN` units. A text
/// whose encoding is longer is cut after `TEXT_BUFFER_LEN` units (which may
/// split a surrogate pair).
pub fn encode_text(text: &str) -> (buf: TextBuffer)
    ensures
        buf.units@.len() == TEXT_BUFFER_LEN,
        buf.len == (if utf16_encode(text@).len() < TEXT_BUFFER_LEN {
            utf16_encode(text@).len()
        } else {
            TEXT_BUFFER_LEN as nat
        }),
        buf.units@.take(buf.len as int) == utf16_encode(text@).take(buf.len as int),
        forall|i: int| buf.len <= i < TEXT_BUFFER_LEN ==> buf.units@[i] == 0,
{
    let mut units: Vec<u16> = Vec::new();
    let ghost chars = text@;
    assert(clip(utf16_encode(chars.take(0))) =~= units@);
    for c in it: text.chars()
        invariant
            chars == text@,
            it.seq() == chars,
            units@ == clip(utf16_encode(chars.take(it.index() as int))),
    {
        let ghost i = it.index() as int;
        let ghost before = units@;
        proof {
            assert(chars.take(i + 1).drop_last() =~= chars.take(i));
            assert(chars.take(i + 1).last() == c);
            lemma_clip_append(utf16_encode(chars.take(i)), utf16_of_char(c));
        }
        let v: u32 = c as u32;
        if v < 0x10000 {
            push_clipped(&mut units, v as u16);
            proof {
                lemma_clip_push(before, v as u16);
                assert(utf16_of_char(c) =~= seq![v as u16]);
                assert(before + seq![v as u16] =~= before.push(v as u16));
                assert(clip(before) == before);
            }
        } else {
            let w: u32 = v - 0x10000;
            let hi: u16 = (0xD800 + w / 0x400) as u16;
            let lo: u16 = (0xDC00 + w % 0x400) as u16;
            push_clipped(&mut units, hi);
            push_clipped(&mut units, lo);
            proof {
                assert(utf16_of_char(c) =~= seq![hi, lo]);
                assert(before + seq![hi, lo] =~= before.push(hi).push(lo));
                assert(clip(before) == before);
                lemma_clip_push(before, hi);
                lemma_clip_push(before.push(hi), lo);
                lemma_clip_append(before.push(hi), seq![lo]);
                assert(before.push(hi) + seq![lo] =~= before.push(hi).push(lo));
            }
        }
    }
    assert(chars.take(chars.len() as int) =~= chars);
    let len: usize = units.len();
    let ghost enc = utf16_encode(text@);
    assert(units@.take(len as int) =~= units@);
    while units.len() < TEXT_BUFFER_LEN
        invariant
            len <= units@.len() <= TEXT_BUFFER_LEN,
            units@.take(len as int) == clip(enc),
            forall|i: int| len <= i < units@.len() ==> units@[i] == 0,
        decreases TEXT_BUFFER_LEN - units@.len(),
    {
        units.push(0);
        assert(units@.take(len as int) =~= units@.drop_last().take(len as int));
    }
    TextBuffer { units, len }
}

} // verus!
