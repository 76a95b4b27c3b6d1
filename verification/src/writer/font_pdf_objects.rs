//! The five PDF objects that embed a TrueType font, their numbering, and
//! the parser for the pre-formatted `/W` widths array.
//!
//! For Unicode-capable PDF text a font is embedded as a graph of five
//! objects:
//!
//! ```text
//!   Type 0 dict          (the Font that page resources reference)
//!     |-- DescendantFonts -> CIDFontType2 dict
//!     |                        `-- FontDescriptor -> FontFile2 stream
//!     `-- ToUnicode      -> CMap stream (glyph id -> source code point)
//! ```
//!
//! Glyphs are addressed through the Type 0 dict with Identity-H encoding
//! (two bytes per glyph, big endian, no remapping); the ToUnicode CMap is
//! what lets text extraction recover the source text.
use crate::object::{
    entry_values, lemma_array_value, lemma_dict_value, lemma_stream_value, values, ObjValue, Object,
};
use vstd::prelude::*;

verus! {

broadcast use vstd::string::group_string_axioms;

/// Object IDs for one embedded-font dict graph, so the caller can link these
/// into the writer's object table and reference the Type 0 dict from the
/// page `/Resources /Font` entry.
#[derive(Debug, Clone, Copy)]
pub struct EmbeddedFontIds {
    /// Top-level Type 0 (`/Font /Subtype /Type0`) dict ID. This is what
    /// the page resource dictionary references.
    pub type0: u32,
    /// Descendant CIDFontType2 dict ID.
    pub cidfont: u32,
    /// FontDescriptor dict ID.
    pub descriptor: u32,
    /// FontFile2 stream ID (the actual TrueType bytes).
    pub font_file: u32,
    /// ToUnicode CMap stream ID (round-trips text extraction).
    pub tounicode: u32,
}

/// Public alias so callers can reference an embedded font's PDF identity
/// without depending on the private dict-builder details.
pub type FontResourceName = String;

/// Allocates the five object IDs of one embedded font from a monotonic
/// counter, in dependency order: font file, descriptor, CID font,
/// ToUnicode CMap, Type 0 dict. Returns the IDs and the next free ID.
pub fn allocate_embedded_font_ids(next_id: u32) -> (r: (EmbeddedFontIds, u32))
    requires
        next_id + 5 <= u32::MAX,
    ensures
        r.0.font_file == next_id,
        r.0.descriptor == next_id + 1,
        r.0.cidfont == next_id + 2,
        r.0.tounicode == next_id + 3,
        r.0.type0 == next_id + 4,
        r.1 == next_id + 5,
{
    let ids = EmbeddedFontIds {
        font_file: next_id,
        descriptor: next_id + 1,
        cidfont: next_id + 2,
        tounicode: next_id + 3,
        type0: next_id + 4,
    };
    (ids, next_id + 5)
}

/// `c` is an ASCII decimal digit.
pub open spec fn is_digit(c: char) -> bool {
    '0' <= c <= '9'
}

/// The value of an ASCII digit.
pub open spec fn digit_value(c: char) -> nat {
    (c as u32 - '0' as u32) as nat
}

/// The value of a string of decimal digits.
pub open spec fn decimal_value(s: Seq<char>) -> nat
    decreases s.len(),
{
    if s.len() == 0 {
        0
    } else {
        decimal_value(s.drop_last()) * 10 + digit_value(s.last())
    }
}

/// All characters are decimal digits and there is at least one.
pub open spec fn all_digits(s: Seq<char>) -> bool {
    s.len() > 0 && forall|i: int| 0 <= i < s.len() ==> is_digit(#[trigger] s[i])
}

/// What `str::parse::<i64>` gives for a token made of digits and `-`: an
/// optional leading minus sign followed by digits whose value fits `i64`.
pub open spec fn parse_i64_token(tok: Seq<char>) -> Option<int> {
    if tok.len() > 0 && tok[0] == '-' {
        let d = tok.drop_first();
        if all_digits(d) && decimal_value(d) <= 0x8000_0000_0000_0000 {
            Some(-(decimal_value(d) as int))
        } else {
            None
        }
    } else if all_digits(tok) && decimal_value(tok) <= 0x7FFF_FFFF_FFFF_FFFF {
        Some(decimal_value(tok) as int)
    } else {
        None
    }
}

/// Parser state: the stack of open arrays and the pending number token.
pub type WidthsState = (Seq<Seq<ObjValue>>, Seq<char>);

/// Ends the pending number token: a token that parses as `i64` is appended
/// to the innermost open array; any other token is dropped.
pub open spec fn widths_flush(st: WidthsState) -> Seq<Seq<ObjValue>> {
    if st.1.len() > 0 && parse_i64_token(st.1) is Some && st.0.len() > 0 {
        st.0.update(
            st.0.len() - 1,
            st.0.last().push(ObjValue::Integer(parse_i64_token(st.1).unwrap())),
        )
    } else {
        st.0
    }
}

/// One character of input: `[` opens an array, `]` closes the innermost
/// one into its parent, digits and `-` extend the number token, anything
/// else ends it.
pub open spec fn widths_step(st: WidthsState, c: char) -> WidthsState {
    if c == '[' {
        (widths_flush(st).push(Seq::empty()), Seq::empty())
    } else if c == ']' {
        let f = widths_flush(st);
        let rest = f.drop_last();
        (rest.update(rest.len() - 1, rest.last().push(ObjValue::Array(f.last()))), Seq::empty())
    } else if is_digit(c) || c == '-' {
        (st.0, st.1.push(c))
    } else {
        (widths_flush(st), Seq::empty())
    }
}

/// The parser state after reading `s`.
pub open spec fn widths_run(s: Seq<char>) -> WidthsState
    decreases s.len(),
{
    if s.len() == 0 {
        (seq![Seq::empty()], Seq::empty())
    } else {
        widths_step(widths_run(s.drop_last()), s.last())
    }
}

/// The object that the widths parser returns for `s`: the innermost open
/// array at the end of input, or its only element when it has exactly one.
pub open spec fn parse_widths_spec(s: Seq<char>) -> ObjValue {
    let f = widths_flush(widths_run(s));
    let root = f.last();
    if root.len() == 1 {
        root[0]
    } else {
        ObjValue::Array(root)
    }
}

/// Open minus closed brackets in `s`.
pub open spec fn bracket_depth(s: Seq<char>) -> int
    decreases s.len(),
{
    if s.len() == 0 {
        0
    } else {
        bracket_depth(s.drop_last()) + if s.last() == '[' {
            1int
        } else if s.last() == ']' {
            -1int
        } else {
            0int
        }
    }
}

/// No `]` closes more arrays than were opened before it.
pub open spec fn brackets_never_underflow(s: Seq<char>) -> bool {
    forall|i: int| 0 <= i < s.len() && s[i] == ']' ==> bracket_depth(#[trigger] s.take(i)) > 0
}

/// The values of a stack of open arrays.
pub open spec fn stack_values(st: Seq<Vec<Object>>) -> Seq<Seq<ObjValue>> {
    Seq::new(st.len(), |i: int| values(st[i]@))
}

proof fn lemma_decimal_value_grows(s: Seq<char>, k: int)
    requires
        0 <= k <= s.len(),
        forall|i: int| 0 <= i < s.len() ==> is_digit(#[trigger] s[i]),
    ensures
        decimal_value(s) >= decimal_value(s.take(k)),
    decreases s.len() - k,
{
    if k < s.len() {
        lemma_decimal_value_grows(s.drop_last(), k);
        assert(s.drop_last().take(k) == s.take(k));
    } else {
        assert(s.take(k) == s);
    }
}

/// Parses a token of digits and `-` as `str::parse::<i64>` does.
fn parse_i64_chars(tok: &Vec<char>) -> (r: Option<i64>)
    ensures
        (r is Some) == (parse_i64_token(tok@) is Some),
        r matches Some(v) ==> v as int == parse_i64_token(tok@).unwrap(),
{
    let n = tok.len();
    if n == 0 {
        return None;
    }
    let neg = tok[0] == '-';
    let start: usize = if neg {
        1
    } else {
        0
    };
    let ghost d = tok@.subrange(start as int, n as int);
    assert(neg ==> d == tok@.drop_first());
    assert(!neg ==> d == tok@);
    if start == n {
        return None;
    }
    let limit: u64 = if neg {
        0x8000_0000_0000_0000
    } else {
        0x7FFF_FFFF_FFFF_FFFF
    };
    let mut acc: u64 = 0;
    let mut i: usize = start;
    while i < n
        invariant
            start <= i <= n,
            n == tok@.len(),
            n > 0,
            neg == (tok@[0] == '-'),
            start == (if neg {
                1usize
            } else {
                0usize
            }),
            limit == (if neg {
                0x8000_0000_0000_0000u64
            } else {
                0x7FFF_FFFF_FFFF_FFFFu64
            }),
            neg ==> d == tok@.drop_first(),
            !neg ==> d == tok@,
            d == tok@.subrange(start as int, n as int),
            acc as nat == decimal_value(d.take(i - start)),
            acc <= limit,
            forall|j: int| 0 <= j < i - start ==> is_digit(#[trigger] d[j]),
        decreases n - i,
    {
        let c = tok[i];
        assert(c == d[i - start]);
        assert(d.take(i - start + 1).drop_last() == d.take(i - start));
        if !('0' <= c && c <= '9') {
            assert(!is_digit(d[i - start]));
            assert(!all_digits(d));
            return None;
        }
        assert((c as u32) <= ('9' as u32) && ('0' as u32) <= (c as u32));
        assert(('9' as u32) - ('0' as u32) == 9);
        let dv = (c as u32 - '0' as u32) as u64;
        if acc > (limit - dv) / 10 {
            proof {
                assert(acc * 10 + dv > limit) by (nonlinear_arith)
                    requires
                        acc > (limit - dv) / 10,
                        dv <= 9,
                        dv <= limit,
                ;
                if all_digits(d) {
                    lemma_decimal_value_grows(d, i - start + 1);
                }
            }
            return None;
        }
        proof {
            assert(acc * 10 + dv <= limit) by (nonlinear_arith)
                requires
                    acc <= (limit - dv) / 10,
                    dv <= 9,
                    dv <= limit,
            ;
        }
        acc = acc * 10 + dv;
        i = i + 1;
    }
    assert(d.take(n - start) == d);
    if neg {
        if acc == 0x8000_0000_0000_0000 {
            Some(i64::MIN)
        } else {
            Some(-(acc as i64))
        }
    } else {
        Some(acc as i64)
    }
}

/// Ends the pending number token (see `widths_flush`).
fn flush_number(stack: &mut Vec<Vec<Object>>, number: &mut Vec<char>)
    requires
        old(stack).len() > 0,
    ensures
        stack_values(final(stack)@) == widths_flush((stack_values(old(stack)@), old(number)@)),
        final(stack).len() == old(stack).len(),
        final(number)@ == Seq::<char>::empty(),
{
    if number.len() > 0 {
        let parsed = parse_i64_chars(number);
        if let Some(n) = parsed {
            let ghost st0 = stack_values(stack@);
            let mut top = stack.pop().unwrap();
            let ghost top0 = top@;
            top.push(Object::Integer(n));
            stack.push(top);
            proof {
                assert(values(top@) =~= values(top0).push(ObjValue::Integer(n as int)));
                assert(stack_values(stack@) =~= st0.update(
                    st0.len() - 1,
                    st0.last().push(ObjValue::Integer(n as int)),
                ));
            }
        }
    }
    number.clear();
}

/// Converts the pre-formatted widths string of an embedded font (a textual
/// PDF array literal like `"[ 36 [ 600 600 ] 65 [ 720 ] ]"`) into a
/// structural array. Accepts integers and `[`/`]` delimiters; a token that
/// is not an `i64` and every other character are skipped.
pub fn parse_widths_string_to_array(s: &str) -> (r: Object)
    requires
        brackets_never_underflow(s@),
    ensures
        r.value() == parse_widths_spec(s@),
{
    let mut stack: Vec<Vec<Object>> = Vec::new();
    stack.push(Vec::new());
    let mut number: Vec<char> = Vec::new();
    assert(values(stack@[0]@) =~= Seq::<ObjValue>::empty());
    assert(stack_values(stack@) =~= seq![Seq::<ObjValue>::empty()]);
    for c in it: s.chars()
        invariant
            it.seq() == s@,
            brackets_never_underflow(s@),
            stack_values(stack@) == widths_run(s@.take(it.index() as int)).0,
            number@ == widths_run(s@.take(it.index() as int)).1,
            stack.len() == bracket_depth(s@.take(it.index() as int)) + 1,
            bracket_depth(s@.take(it.index() as int)) >= 0,
    {
        let ghost pre = s@.take(it.index() as int);
        assert(s@.take(it.index() + 1).drop_last() == pre);
        assert(s@.take(it.index() + 1).last() == c);
        if c == '[' {
            flush_number(&mut stack, &mut number);
            let ghost f = stack_values(stack@);
            let empty: Vec<Object> = Vec::new();
            assert(values(empty@) =~= Seq::<ObjValue>::empty());
            stack.push(empty);
            assert(stack_values(stack@) =~= f.push(Seq::<ObjValue>::empty()));
        } else if c == ']' {
            assert(bracket_depth(pre) > 0);
            flush_number(&mut stack, &mut number);
            let ghost f = stack_values(stack@);
            let popped = stack.pop().unwrap();
            let mut top = stack.pop().unwrap();
            let ghost top0 = top@;
            let ghost popped_v = popped@;
            top.push(Object::Array(popped));
            stack.push(top);
            proof {
                let rest = f.drop_last();
                lemma_array_value(popped);
                assert(values(top@) =~= values(top0).push(ObjValue::Array(values(popped_v))));
                assert(stack_values(stack@) =~= rest.update(
                    rest.len() - 1,
                    rest.last().push(ObjValue::Array(f.last())),
                ));
            }
        } else if ('0' <= c && c <= '9') || c == '-' {
            number.push(c);
        } else {
            flush_number(&mut stack, &mut number);
        }
    }
    assert(s@.take(s@.len() as int) == s@);
    flush_number(&mut stack, &mut number);
    let ghost f = stack_values(stack@);
    let mut root = stack.pop().unwrap();
    assert(values(root@) == f.last());
    if root.len() == 1 {
        let r = root.pop().unwrap();
        assert(r.value() == f.last()[0]);
        r
    } else {
        let ghost rv = root@;
        let r = Object::Array(root);
        proof {
            lemma_array_value(root);
        }
        r
    }
}


/// The plain values of an embedded TrueType font that its PDF objects
/// carry.
pub struct EmbeddedFontData {
    /// The PostScript name, with its subset tag (like `ABCDEF+DejaVuSans`).
    pub base_font: String,
    /// The TrueType file.
    pub font_bytes: Vec<u8>,
    /// The font descriptor flags.
    pub flags: i64,
    /// The font bounding box (llx, lly, urx, ury), each as a written real.
    pub font_bbox: (String, String, String, String),
    /// The italic angle, as a written real.
    pub italic_angle: String,
    /// Ascent, descent, cap height, x height and stem width, in glyph
    /// units.
    pub ascent: i64,
    pub descent: i64,
    pub cap_height: i64,
    pub x_height: i64,
    pub stem_v: i64,
    /// The pre-formatted widths array (like `[ 36 [ 600 600 ] ]`).
    pub widths: String,
    /// The ToUnicode CMap.
    pub tounicode_cmap: Vec<u8>,
}

/// A reference to object `id`, generation 0.
pub open spec fn ref_value(id: u32) -> ObjValue {
    ObjValue::Reference(id as nat, 0)
}

/// The FontFile2 stream: the font bytes, with `Length` and `Length1` both
/// their number.
pub open spec fn font_file_value(font: EmbeddedFontData) -> ObjValue {
    ObjValue::Stream(
        seq![
            ("Length"@, ObjValue::Integer(font.font_bytes@.len() as int)),
            ("Length1"@, ObjValue::Integer(font.font_bytes@.len() as int)),
        ],
        font.font_bytes@,
    )
}

/// The FontDescriptor dictionary, pointing at the FontFile2 stream.
pub open spec fn descriptor_value(ids: EmbeddedFontIds, font: EmbeddedFontData) -> ObjValue {
    ObjValue::Dictionary(
        seq![
            ("Type"@, ObjValue::Name("FontDescriptor"@)),
            ("FontName"@, ObjValue::Name(font.base_font@)),
            ("Flags"@, ObjValue::Integer(font.flags as int)),
            ("FontBBox"@, ObjValue::Array(
                seq![
                    ObjValue::Real(font.font_bbox.0@),
                    ObjValue::Real(font.font_bbox.1@),
                    ObjValue::Real(font.font_bbox.2@),
                    ObjValue::Real(font.font_bbox.3@),
                ],
            )),
            ("ItalicAngle"@, ObjValue::Real(font.italic_angle@)),
            ("Ascent"@, ObjValue::Integer(font.ascent as int)),
            ("Descent"@, ObjValue::Integer(font.descent as int)),
            ("CapHeight"@, ObjValue::Integer(font.cap_height as int)),
            ("XHeight"@, ObjValue::Integer(font.x_height as int)),
            ("StemV"@, ObjValue::Integer(font.stem_v as int)),
            ("FontFile2"@, ref_value(ids.font_file)),
        ],
    )
}

/// The `CIDSystemInfo` of an Identity-ordered CID font.
pub open spec fn cid_system_info_value() -> ObjValue {
    ObjValue::Dictionary(
        seq![
            ("Registry"@, ObjValue::Str("Adobe"@)),
            ("Ordering"@, ObjValue::Str("Identity"@)),
            ("Supplement"@, ObjValue::Integer(0)),
        ],
    )
}

/// The CIDFontType2 dictionary, pointing at the FontDescriptor, with the
/// parsed widths array.
pub open spec fn cidfont_value(ids: EmbeddedFontIds, font: EmbeddedFontData) -> ObjValue {
    ObjValue::Dictionary(
        seq![
            ("Type"@, ObjValue::Name("Font"@)),
            ("Subtype"@, ObjValue::Name("CIDFontType2"@)),
            ("BaseFont"@, ObjValue::Name(font.base_font@)),
            ("CIDSystemInfo"@, cid_system_info_value()),
            ("FontDescriptor"@, ref_value(ids.descriptor)),
            ("CIDToGIDMap"@, ObjValue::Name("Identity"@)),
            ("W"@, parse_widths_spec(font.widths@)),
        ],
    )
}

/// The ToUnicode stream: the CMap, with `Length` its number of bytes.
pub open spec fn tounicode_value(font: EmbeddedFontData) -> ObjValue {
    ObjValue::Stream(
        seq![("Length"@, ObjValue::Integer(font.tounicode_cmap@.len() as int))],
        font.tounicode_cmap@,
    )
}

/// The Type 0 dictionary, pointing at the CID font and the ToUnicode
/// stream.
pub open spec fn type0_value(ids: EmbeddedFontIds, font: EmbeddedFontData) -> ObjValue {
    ObjValue::Dictionary(
        seq![
            ("Type"@, ObjValue::Name("Font"@)),
            ("Subtype"@, ObjValue::Name("Type0"@)),
            ("BaseFont"@, ObjValue::Name(font.base_font@)),
            ("Encoding"@, ObjValue::Name("Identity-H"@)),
            ("DescendantFonts"@, ObjValue::Array(seq![ref_value(ids.cidfont)])),
            ("ToUnicode"@, ref_value(ids.tounicode)),
        ],
    )
}

/// The five objects of an embedded font with their numbers, in dependency
/// order: font file, descriptor, CID font, ToUnicode CMap, Type 0 dict.
pub open spec fn font_objects_spec(ids: EmbeddedFontIds, font: EmbeddedFontData) -> Seq<
    (u32, ObjValue),
> {
    seq![
        (ids.font_file, font_file_value(font)),
        (ids.descriptor, descriptor_value(ids, font)),
        (ids.cidfont, cidfont_value(ids, font)),
        (ids.tounicode, tounicode_value(font)),
        (ids.type0, type0_value(ids, font)),
    ]
}

/// The value of the first entry named `key` of a dictionary's entries.
pub open spec fn dict_get(entries: Seq<(Seq<char>, ObjValue)>, key: Seq<char>) -> Option<ObjValue>
    decreases entries.len(),
{
    if entries.len() == 0 {
        None
    } else if entries[0].0 == key {
        Some(entries[0].1)
    } else {
        dict_get(entries.drop_first(), key)
    }
}

proof fn lemma_dict_get_at(d: Seq<(Seq<char>, ObjValue)>, key: Seq<char>, k: int)
    requires
        0 <= k < d.len(),
        d[k].0 == key,
        forall|i: int| 0 <= i < k ==> #[trigger] d[i].0 != key,
    ensures
        dict_get(d, key) == Some(d[k].1),
    decreases k,
{
    if k > 0 {
        assert(d[0].0 != key);
        lemma_dict_get_at(d.drop_first(), key, k - 1);
    }
}

/// Each entry of the FontDescriptor is the font's value of the same name:
/// `/FontName` the font name, `/Flags` the flags, `/Ascent`, `/Descent`,
/// `/CapHeight`, `/XHeight` and `/StemV` the metrics of those names,
/// `/ItalicAngle` the italic angle, and `/FontFile2` a reference to the
/// font file.
pub proof fn lemma_descriptor_entries(ids: EmbeddedFontIds, font: EmbeddedFontData)
    ensures
        descriptor_value(ids, font) is Dictionary,
        ({
            let d = descriptor_value(ids, font)->Dictionary_0;
            &&& dict_get(d, "Type"@) == Some(ObjValue::Name("FontDescriptor"@))
            &&& dict_get(d, "FontName"@) == Some(ObjValue::Name(font.base_font@))
            &&& dict_get(d, "Flags"@) == Some(ObjValue::Integer(font.flags as int))
            &&& dict_get(d, "ItalicAngle"@) == Some(ObjValue::Real(font.italic_angle@))
            &&& dict_get(d, "Ascent"@) == Some(ObjValue::Integer(font.ascent as int))
            &&& dict_get(d, "Descent"@) == Some(ObjValue::Integer(font.descent as int))
            &&& dict_get(d, "CapHeight"@) == Some(ObjValue::Integer(font.cap_height as int))
            &&& dict_get(d, "XHeight"@) == Some(ObjValue::Integer(font.x_height as int))
            &&& dict_get(d, "StemV"@) == Some(ObjValue::Integer(font.stem_v as int))
            &&& dict_get(d, "FontFile2"@) == Some(ObjValue::Reference(ids.font_file as nat, 0))
        }),
{
    reveal_strlit("Type");
    reveal_strlit("FontName");
    reveal_strlit("Flags");
    reveal_strlit("FontBBox");
    reveal_strlit("ItalicAngle");
    reveal_strlit("Ascent");
    reveal_strlit("Descent");
    reveal_strlit("CapHeight");
    reveal_strlit("XHeight");
    reveal_strlit("StemV");
    reveal_strlit("FontFile2");
    let d = descriptor_value(ids, font)->Dictionary_0;
    assert(d[0].0 == "Type"@ && d[1].0 == "FontName"@ && d[2].0 == "Flags"@ && d[3].0 == "FontBBox"@
        && d[4].0 == "ItalicAngle"@ && d[5].0 == "Ascent"@ && d[6].0 == "Descent"@ && d[7].0
        == "CapHeight"@ && d[8].0 == "XHeight"@ && d[9].0 == "StemV"@ && d[10].0 == "FontFile2"@);
    assert("Type"@.len() == 4 && "FontName"@.len() == 8 && "Flags"@.len() == 5 && "FontBBox"@.len()
        == 8 && "ItalicAngle"@.len() == 11 && "Ascent"@.len() == 6 && "Descent"@.len() == 7
        && "CapHeight"@.len() == 9 && "XHeight"@.len() == 7 && "StemV"@.len() == 5
        && "FontFile2"@.len() == 9);
    assert("FontName"@[4] != "FontBBox"@[4]);
    assert("XHeight"@[0] != "Descent"@[0]);
    assert("StemV"@[0] != "Flags"@[0]);
    assert("CapHeight"@[0] != "FontFile2"@[0]);
    lemma_dict_get_at(d, "Type"@, 0);
    lemma_dict_get_at(d, "FontName"@, 1);
    lemma_dict_get_at(d, "Flags"@, 2);
    lemma_dict_get_at(d, "ItalicAngle"@, 4);
    lemma_dict_get_at(d, "Ascent"@, 5);
    lemma_dict_get_at(d, "Descent"@, 6);
    lemma_dict_get_at(d, "CapHeight"@, 7);
    lemma_dict_get_at(d, "XHeight"@, 8);
    lemma_dict_get_at(d, "StemV"@, 9);
    lemma_dict_get_at(d, "FontFile2"@, 10);
}

/// The other four objects of an embedded font are linked and sized as
/// the PDF format asks: the font file's `/Length` and `/Length1` are its
/// number of bytes and its data is the font; the CID font names the font,
/// points at the descriptor and carries the parsed widths; the ToUnicode
/// stream's `/Length` is the CMap's number of bytes; the Type 0 font
/// names the font, uses Identity-H, and points at the CID font and the
/// ToUnicode stream.
pub proof fn lemma_font_graph_links(ids: EmbeddedFontIds, font: EmbeddedFontData)
    ensures
        font_file_value(font) is Stream,
        tounicode_value(font) is Stream,
        cidfont_value(ids, font) is Dictionary,
        type0_value(ids, font) is Dictionary,
        ({
            let ff = font_file_value(font);
            let tu = tounicode_value(font);
            let cf = cidfont_value(ids, font)->Dictionary_0;
            let t0 = type0_value(ids, font)->Dictionary_0;
            &&& dict_get(ff->Stream_0, "Length"@) == Some(ObjValue::Integer(font.font_bytes@.len() as int))
            &&& dict_get(ff->Stream_0, "Length1"@) == Some(ObjValue::Integer(font.font_bytes@.len() as int))
            &&& ff->Stream_1 == font.font_bytes@
            &&& dict_get(tu->Stream_0, "Length"@) == Some(ObjValue::Integer(font.tounicode_cmap@.len() as int))
            &&& tu->Stream_1 == font.tounicode_cmap@
            &&& dict_get(cf, "BaseFont"@) == Some(ObjValue::Name(font.base_font@))
            &&& dict_get(cf, "FontDescriptor"@) == Some(ObjValue::Reference(ids.descriptor as nat, 0))
            &&& dict_get(cf, "W"@) == Some(parse_widths_spec(font.widths@))
            &&& dict_get(t0, "BaseFont"@) == Some(ObjValue::Name(font.base_font@))
            &&& dict_get(t0, "Encoding"@) == Some(ObjValue::Name("Identity-H"@))
            &&& dict_get(t0, "DescendantFonts"@) == Some(
                ObjValue::Array(seq![ObjValue::Reference(ids.cidfont as nat, 0)]),
            )
            &&& dict_get(t0, "ToUnicode"@) == Some(ObjValue::Reference(ids.tounicode as nat, 0))
        }),
{
    reveal_strlit("Length");
    reveal_strlit("Length1");
    reveal_strlit("Type");
    reveal_strlit("Subtype");
    reveal_strlit("BaseFont");
    reveal_strlit("CIDSystemInfo");
    reveal_strlit("FontDescriptor");
    reveal_strlit("CIDToGIDMap");
    reveal_strlit("W");
    reveal_strlit("Encoding");
    reveal_strlit("DescendantFonts");
    reveal_strlit("ToUnicode");
    let ff = font_file_value(font)->Stream_0;
    assert(ff[0].0 == "Length"@ && ff[1].0 == "Length1"@);
    assert("Length"@.len() == 6 && "Length1"@.len() == 7);
    lemma_dict_get_at(ff, "Length"@, 0);
    lemma_dict_get_at(ff, "Length1"@, 1);
    lemma_dict_get_at(tounicode_value(font)->Stream_0, "Length"@, 0);
    let cf = cidfont_value(ids, font)->Dictionary_0;
    assert(cf[0].0 == "Type"@ && cf[1].0 == "Subtype"@ && cf[2].0 == "BaseFont"@ && cf[3].0
        == "CIDSystemInfo"@ && cf[4].0 == "FontDescriptor"@ && cf[5].0 == "CIDToGIDMap"@ && cf[6].0
        == "W"@);
    assert("Type"@.len() == 4 && "Subtype"@.len() == 7 && "BaseFont"@.len() == 8
        && "CIDSystemInfo"@.len() == 13 && "FontDescriptor"@.len() == 14 && "CIDToGIDMap"@.len()
        == 11 && "W"@.len() == 1 && "Encoding"@.len() == 8 && "DescendantFonts"@.len() == 15
        && "ToUnicode"@.len() == 9);
    lemma_dict_get_at(cf, "BaseFont"@, 2);
    lemma_dict_get_at(cf, "FontDescriptor"@, 4);
    lemma_dict_get_at(cf, "W"@, 6);
    let t0 = type0_value(ids, font)->Dictionary_0;
    assert(t0[0].0 == "Type"@ && t0[1].0 == "Subtype"@ && t0[2].0 == "BaseFont"@ && t0[3].0
        == "Encoding"@ && t0[4].0 == "DescendantFonts"@ && t0[5].0 == "ToUnicode"@);
    assert("BaseFont"@[0] != "Encoding"@[0]);
    lemma_dict_get_at(t0, "BaseFont"@, 2);
    lemma_dict_get_at(t0, "Encoding"@, 3);
    lemma_dict_get_at(t0, "DescendantFonts"@, 4);
    lemma_dict_get_at(t0, "ToUnicode"@, 5);
}

/// The numbers and values of numbered objects.
pub open spec fn numbered_values(v: Seq<(u32, Object)>) -> Seq<(u32, ObjValue)> {
    Seq::new(v.len(), |i: int| (v[i].0, v[i].1.value()))
}

/// What the widths string and the byte lengths of an embedded font must
/// satisfy: brackets that never close more than was opened, and lengths
/// that fit a PDF integer.
pub open spec fn font_data_ok(font: EmbeddedFontData) -> bool {
    &&& brackets_never_underflow(font.widths@)
    &&& font.font_bytes@.len() <= i64::MAX
    &&& font.tounicode_cmap@.len() <= i64::MAX
}

fn name_obj(s: &str) -> (r: Object)
    ensures
        r.value() == ObjValue::Name(s@),
{
    Object::Name(s.to_owned())
}

fn ref_obj(id: u32) -> (r: Object)
    ensures
        r.value() == ref_value(id),
{
    Object::Reference(id, 0)
}

fn push_entry(d: &mut Vec<(String, Object)>, key: &str, v: Object)
    ensures
        entry_values(final(d)@) == entry_values(old(d)@).push((key@, v.value())),
{
    let ghost vv = v.value();
    d.push((key.to_owned(), v));
    assert(entry_values(d@) =~= entry_values(old(d)@).push((key@, vv)));
}

fn dict_obj(d: Vec<(String, Object)>) -> (r: Object)
    ensures
        r.value() == ObjValue::Dictionary(entry_values(d@)),
{
    proof {
        lemma_dict_value(d);
    }
    Object::Dictionary(d)
}

fn stream_obj(d: Vec<(String, Object)>, data: Vec<u8>) -> (r: Object)
    ensures
        r.value() == ObjValue::Stream(entry_values(d@), data@),
{
    proof {
        lemma_stream_value(d, data);
    }
    Object::Stream(d, data)
}

fn empty_entries() -> (r: Vec<(String, Object)>)
    ensures
        entry_values(r@) == Seq::<(Seq<char>, ObjValue)>::empty(),
{
    let r: Vec<(String, Object)> = Vec::new();
    assert(entry_values(r@) =~= Seq::<(Seq<char>, ObjValue)>::empty());
    r
}

fn font_file_obj(font_bytes: Vec<u8>) -> (r: Object)
    requires
        font_bytes@.len() <= i64::MAX,
    ensures
        r.value() == ObjValue::Stream(
            seq![
                ("Length"@, ObjValue::Integer(font_bytes@.len() as int)),
                ("Length1"@, ObjValue::Integer(font_bytes@.len() as int)),
            ],
            font_bytes@,
        ),
{
    let n = font_bytes.len() as i64;
    let mut d = empty_entries();
    push_entry(&mut d, "Length", Object::Integer(n));
    push_entry(&mut d, "Length1", Object::Integer(n));
    assert(entry_values(d@) =~= seq![
        ("Length"@, ObjValue::Integer(font_bytes@.len() as int)),
        ("Length1"@, ObjValue::Integer(font_bytes@.len() as int)),
    ]);
    stream_obj(d, font_bytes)
}

fn bbox_obj(b: (String, String, String, String)) -> (r: Object)
    ensures
        r.value() == ObjValue::Array(
            seq![
                ObjValue::Real(b.0@),
                ObjValue::Real(b.1@),
                ObjValue::Real(b.2@),
                ObjValue::Real(b.3@),
            ],
        ),
{
    let ghost g = b;
    let (a0, a1, a2, a3) = b;
    let mut v: Vec<Object> = Vec::new();
    v.push(Object::Real(a0));
    v.push(Object::Real(a1));
    v.push(Object::Real(a2));
    v.push(Object::Real(a3));
    proof {
        lemma_array_value(v);
        assert(values(v@) =~= seq![
            ObjValue::Real(g.0@),
            ObjValue::Real(g.1@),
            ObjValue::Real(g.2@),
            ObjValue::Real(g.3@),
        ]);
    }
    Object::Array(v)
}

fn descriptor_obj(ids: &EmbeddedFontIds, font: &EmbeddedFontData, bbox: Object, angle: Object) -> (r:
    Object)
    requires
        bbox.value() == ObjValue::Array(
            seq![
                ObjValue::Real(font.font_bbox.0@),
                ObjValue::Real(font.font_bbox.1@),
                ObjValue::Real(font.font_bbox.2@),
                ObjValue::Real(font.font_bbox.3@),
            ],
        ),
        angle.value() == ObjValue::Real(font.italic_angle@),
    ensures
        r.value() == descriptor_value(*ids, *font),
{
    let mut d = empty_entries();
    push_entry(&mut d, "Type", name_obj("FontDescriptor"));
    push_entry(&mut d, "FontName", name_obj(font.base_font.as_str()));
    push_entry(&mut d, "Flags", Object::Integer(font.flags));
    push_entry(&mut d, "FontBBox", bbox);
    push_entry(&mut d, "ItalicAngle", angle);
    push_entry(&mut d, "Ascent", Object::Integer(font.ascent));
    push_entry(&mut d, "Descent", Object::Integer(font.descent));
    push_entry(&mut d, "CapHeight", Object::Integer(font.cap_height));
    push_entry(&mut d, "XHeight", Object::Integer(font.x_height));
    push_entry(&mut d, "StemV", Object::Integer(font.stem_v));
    push_entry(&mut d, "FontFile2", ref_obj(ids.font_file));
    assert(entry_values(d@) =~= descriptor_value(*ids, *font)->Dictionary_0);
    dict_obj(d)
}

fn cid_system_info_obj() -> (r: Object)
    ensures
        r.value() == cid_system_info_value(),
{
    let mut d = empty_entries();
    push_entry(&mut d, "Registry", Object::Str("Adobe".to_owned()));
    push_entry(&mut d, "Ordering", Object::Str("Identity".to_owned()));
    push_entry(&mut d, "Supplement", Object::Integer(0));
    assert(entry_values(d@) =~= cid_system_info_value()->Dictionary_0);
    dict_obj(d)
}

fn cidfont_obj(ids: &EmbeddedFontIds, font: &EmbeddedFontData) -> (r: Object)
    requires
        brackets_never_underflow(font.widths@),
    ensures
        r.value() == cidfont_value(*ids, *font),
{
    let mut d = empty_entries();
    push_entry(&mut d, "Type", name_obj("Font"));
    push_entry(&mut d, "Subtype", name_obj("CIDFontType2"));
    push_entry(&mut d, "BaseFont", name_obj(font.base_font.as_str()));
    push_entry(&mut d, "CIDSystemInfo", cid_system_info_obj());
    push_entry(&mut d, "FontDescriptor", ref_obj(ids.descriptor));
    push_entry(&mut d, "CIDToGIDMap", name_obj("Identity"));
    push_entry(&mut d, "W", parse_widths_string_to_array(font.widths.as_str()));
    assert(entry_values(d@) =~= cidfont_value(*ids, *font)->Dictionary_0);
    dict_obj(d)
}

fn tounicode_obj(cmap: Vec<u8>) -> (r: Object)
    requires
        cmap@.len() <= i64::MAX,
    ensures
        r.value() == ObjValue::Stream(
            seq![("Length"@, ObjValue::Integer(cmap@.len() as int))],
            cmap@,
        ),
{
    let n = cmap.len() as i64;
    let mut d = empty_entries();
    push_entry(&mut d, "Length", Object::Integer(n));
    stream_obj(d, cmap)
}

fn type0_obj(ids: &EmbeddedFontIds, font: &EmbeddedFontData) -> (r: Object)
    ensures
        r.value() == type0_value(*ids, *font),
{
    let mut refs: Vec<Object> = Vec::new();
    refs.push(ref_obj(ids.cidfont));
    proof {
        lemma_array_value(refs);
        assert(values(refs@) =~= seq![ref_value(ids.cidfont)]);
    }
    let mut d = empty_entries();
    push_entry(&mut d, "Type", name_obj("Font"));
    push_entry(&mut d, "Subtype", name_obj("Type0"));
    push_entry(&mut d, "BaseFont", name_obj(font.base_font.as_str()));
    push_entry(&mut d, "Encoding", name_obj("Identity-H"));
    push_entry(&mut d, "DescendantFonts", Object::Array(refs));
    push_entry(&mut d, "ToUnicode", ref_obj(ids.tounicode));
    assert(entry_values(d@) =~= type0_value(*ids, *font)->Dictionary_0);
    dict_obj(d)
}

/// The five objects that embed `font` under the numbers `ids`, in
/// dependency order: the FontFile2 stream, the FontDescriptor, the
/// CIDFontType2 dict, the ToUnicode CMap stream and the Type 0 dict, each
/// linked to the next by reference.
pub fn embedded_font_objects(ids: &EmbeddedFontIds, font: EmbeddedFontData) -> (r: Vec<
    (u32, Object),
>)
    requires
        font_data_ok(font),
    ensures
        numbered_values(r@) == font_objects_spec(*ids, font),
{
    let ghost f = font;
    let descriptor = descriptor_obj(
        ids,
        &font,
        bbox_obj(
            (
                font.font_bbox.0.as_str().to_owned(),
                font.font_bbox.1.as_str().to_owned(),
                font.font_bbox.2.as_str().to_owned(),
                font.font_bbox.3.as_str().to_owned(),
            ),
        ),
        Object::Real(font.italic_angle.as_str().to_owned()),
    );
    let cidfont = cidfont_obj(ids, &font);
    let type0 = type0_obj(ids, &font);
    let EmbeddedFontData { font_bytes, tounicode_cmap, .. } = font;
    let file = font_file_obj(font_bytes);
    let tounicode = tounicode_obj(tounicode_cmap);
    let mut out: Vec<(u32, Object)> = Vec::new();
    out.push((ids.font_file, file));
    out.push((ids.descriptor, descriptor));
    out.push((ids.cidfont, cidfont));
    out.push((ids.tounicode, tounicode));
    out.push((ids.type0, type0));
    assert(numbered_values(out@) =~= font_objects_spec(*ids, f));
    out
}

/// Numbers the five objects of `font` from `next_id` on (see
/// [`allocate_embedded_font_ids`]) and builds them: the numbers, the
/// objects, and the next free number.
pub fn build_embedded_font_objects(font: EmbeddedFontData, next_id: u32) -> (r: (
    EmbeddedFontIds,
    Vec<(u32, Object)>,
    u32,
))
    requires
        next_id + 5 <= u32::MAX,
        font_data_ok(font),
    ensures
        r.0.font_file == next_id,
        r.0.descriptor == next_id + 1,
        r.0.cidfont == next_id + 2,
        r.0.tounicode == next_id + 3,
        r.0.type0 == next_id + 4,
        r.2 == next_id + 5,
        numbered_values(r.1@) == font_objects_spec(r.0, font),
{
    let (ids, next) = allocate_embedded_font_ids(next_id);
    let objects = embedded_font_objects(&ids, font);
    (ids, objects, next)
}

} // verus!
