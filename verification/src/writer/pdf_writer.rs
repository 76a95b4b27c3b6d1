//! PDF writer configuration, the document information entries, content
//! stream compression, and the file header and cross-reference section.
use crate::object::Object;
use crate::signatures::crypto::extend_bytes;
use crate::text::{decimal, push_char, push_decimal};
use std::io::Write;
use vstd::prelude::*;
use vstd::utf8::encode_utf8;
use vstd::string::{StrSliceExecFns, StringExecFns, StringSliceAdditionalSpecFns};

verus! {

broadcast use vstd::string::group_string_axioms;

/// Configuration for PDF generation.
#[derive(Debug, Clone)]
pub struct PdfWriterConfig {
    /// PDF version (e.g., "1.7")
    pub version: String,
    /// Document title
    pub title: Option<String>,
    /// Document author
    pub author: Option<String>,
    /// Document subject
    pub subject: Option<String>,
    /// Document keywords
    pub keywords: Option<String>,
    /// Creator application
    pub creator: Option<String>,
    /// Whether to compress streams
    pub compress: bool,
}

/// The value of a [`PdfWriterConfig`].
pub struct ConfigView {
    pub version: Seq<char>,
    pub title: Option<Seq<char>>,
    pub author: Option<Seq<char>>,
    pub subject: Option<Seq<char>>,
    pub keywords: Option<Seq<char>>,
    pub creator: Option<Seq<char>>,
    pub compress: bool,
}

/// The value of an optional string.
pub open spec fn opt_view(o: Option<String>) -> Option<Seq<char>> {
    match o {
        Some(s) => Some(s@),
        None => None,
    }
}

impl View for PdfWriterConfig {
    type V = ConfigView;

    open spec fn view(&self) -> ConfigView {
        ConfigView {
            version: self.version@,
            title: opt_view(self.title),
            author: opt_view(self.author),
            subject: opt_view(self.subject),
            keywords: opt_view(self.keywords),
            creator: opt_view(self.creator),
            compress: self.compress,
        }
    }
}

impl ConfigView {
    /// The configuration with its title set.
    pub open spec fn with_title(self, title: Seq<char>) -> ConfigView {
        ConfigView { title: Some(title), ..self }
    }

    /// The configuration with its author set.
    pub open spec fn with_author(self, author: Seq<char>) -> ConfigView {
        ConfigView { author: Some(author), ..self }
    }

    /// The configuration with its subject set.
    pub open spec fn with_subject(self, subject: Seq<char>) -> ConfigView {
        ConfigView { subject: Some(subject), ..self }
    }

    /// The configuration with compression switched on or off.
    pub open spec fn with_compress(self, compress: bool) -> ConfigView {
        ConfigView { compress, ..self }
    }
}

/// The setters touch one field each, so setters of different fields can
/// be applied in either order with the same result; setting a field
/// twice keeps the last value.
pub proof fn lemma_setters_commute(c: ConfigView, t: Seq<char>, a: Seq<char>, s: Seq<char>, z: bool)
    ensures
        c.with_title(t).with_subject(s) == c.with_subject(s).with_title(t),
        c.with_title(t).with_author(a) == c.with_author(a).with_title(t),
        c.with_author(a).with_subject(s) == c.with_subject(s).with_author(a),
        c.with_title(t).with_compress(z) == c.with_compress(z).with_title(t),
        c.with_title(a).with_title(t) == c.with_title(t),
{
}

impl Default for PdfWriterConfig {
    /// Version 1.7, creator "pdf_oxide", no other metadata, no compression.
    fn default() -> (r: Self)
        ensures
            r.version@ == "1.7"@,
            r.title is None,
            r.author is None,
            r.subject is None,
            r.keywords is None,
            r.creator is Some && r.creator->0@ == "pdf_oxide"@,
            !r.compress,
    {
        PdfWriterConfig {
            version: "1.7".to_owned(),
            title: None,
            author: None,
            subject: None,
            keywords: None,
            creator: Some("pdf_oxide".to_owned()),
            compress: false,
        }
    }
}

impl PdfWriterConfig {
    /// Set document title.
    pub fn with_title(self, title: &str) -> (r: Self)
        ensures
            r.title is Some && r.title->0@ == title@,
            r@ == self@.with_title(title@),
            r.version == self.version,
            r.author == self.author,
            r.subject == self.subject,
            r.keywords == self.keywords,
            r.creator == self.creator,
            r.compress == self.compress,
    {
        PdfWriterConfig { title: Some(title.to_owned()), ..self }
    }

    /// Set document author.
    pub fn with_author(self, author: &str) -> (r: Self)
        ensures
            r.author is Some && r.author->0@ == author@,
            r@ == self@.with_author(author@),
            r.version == self.version,
            r.title == self.title,
            r.subject == self.subject,
            r.keywords == self.keywords,
            r.creator == self.creator,
            r.compress == self.compress,
    {
        PdfWriterConfig { author: Some(author.to_owned()), ..self }
    }

    /// Set document subject.
    pub fn with_subject(self, subject: &str) -> (r: Self)
        ensures
            r.subject is Some && r.subject->0@ == subject@,
            r@ == self@.with_subject(subject@),
            r.version == self.version,
            r.title == self.title,
            r.author == self.author,
            r.keywords == self.keywords,
            r.creator == self.creator,
            r.compress == self.compress,
    {
        PdfWriterConfig { subject: Some(subject.to_owned()), ..self }
    }

    /// Enable or disable stream compression (FlateDecode).
    pub fn with_compress(self, compress: bool) -> (r: Self)
        ensures
            r.compress == compress,
            r@ == self@.with_compress(compress),
            r.version == self.version,
            r.title == self.title,
            r.author == self.author,
            r.subject == self.subject,
            r.keywords == self.keywords,
            r.creator == self.creator,
    {
        PdfWriterConfig { compress, ..self }
    }
}

/// The entries of the document information dictionary: title, author,
/// subject and creator, each when set, in that order. Keywords are not
/// written.
pub open spec fn info_entries_spec(c: PdfWriterConfig) -> Seq<(Seq<char>, Seq<char>)> {
    let a = match c.title {
        Some(t) => seq![("Title"@, t@)],
        None => Seq::empty(),
    };
    let b = match c.author {
        Some(t) => seq![("Author"@, t@)],
        None => Seq::empty(),
    };
    let s = match c.subject {
        Some(t) => seq![("Subject"@, t@)],
        None => Seq::empty(),
    };
    let d = match c.creator {
        Some(t) => seq![("Creator"@, t@)],
        None => Seq::empty(),
    };
    a + b + s + d
}

fn push_info_entry(
    v: &mut Vec<(String, String)>,
    key: &str,
    value: &Option<String>,
)
    ensures
        final(v).deep_view() == old(v).deep_view() + match *value {
            Some(t) => seq![(key@, t@)],
            None => Seq::<(Seq<char>, Seq<char>)>::empty(),
        },
{
    if let Some(t) = value {
        let ghost before = v.deep_view();
        v.push((key.to_owned(), t.clone()));
        assert(v.deep_view() =~= before + seq![(key@, t@)]);
    } else {
        assert(v.deep_view() =~= v.deep_view() + Seq::<(Seq<char>, Seq<char>)>::empty());
    }
}

/// The key/value pairs of the document information dictionary.
pub fn info_entries(config: &PdfWriterConfig) -> (r: Vec<(String, String)>)
    ensures
        r.deep_view() == info_entries_spec(*config),
{
    let mut v: Vec<(String, String)> = Vec::new();
    assert(v.deep_view() =~= Seq::<(Seq<char>, Seq<char>)>::empty());
    push_info_entry(&mut v, "Title", &config.title);
    push_info_entry(&mut v, "Author", &config.author);
    push_info_entry(&mut v, "Subject", &config.subject);
    push_info_entry(&mut v, "Creator", &config.creator);
    assert(v.deep_view() =~= info_entries_spec(*config));
    v
}

/// The bytes of the PDF file header: `%PDF-<version>` on a line, then the
/// binary-content marker comment.
pub open spec fn pdf_header_spec(version_bytes: Seq<u8>) -> Seq<u8> {
    seq![0x25u8, 0x50, 0x44, 0x46, 0x2D] + version_bytes + seq![0x0Au8] + seq![
        0x25u8,
        0xE2,
        0xE3,
        0xCF,
        0xD3,
        0x0A,
    ]
}

/// The PDF file header for `version`.
pub fn pdf_header(version: &str) -> (r: Vec<u8>)
    ensures
        r@ == pdf_header_spec(version.spec_bytes()),
{
    let mut out: Vec<u8> = vec![0x25u8, 0x50, 0x44, 0x46, 0x2D];
    let vb = version.as_bytes();
    let mut i: usize = 0;
    while i < vb.len()
        invariant
            i <= vb@.len(),
            vb@ == version.spec_bytes(),
            out@ == seq![0x25u8, 0x50, 0x44, 0x46, 0x2D] + vb@.take(i as int),
        decreases vb.len() - i,
    {
        out.push(vb[i]);
        assert(vb@.take(i + 1) == vb@.take(i as int).push(vb@[i as int]));
        i = i + 1;
    }
    assert(vb@.take(vb@.len() as int) == vb@);
    out.push(0x0A);
    out.push(0x25);
    out.push(0xE2);
    out.push(0xE3);
    out.push(0xCF);
    out.push(0xD3);
    out.push(0x0A);
    assert(out@ =~= pdf_header_spec(version.spec_bytes()));
    out
}

/// `s` left-padded with `0` to at least ten characters.
pub open spec fn pad10(s: Seq<char>) -> Seq<char> {
    if s.len() >= 10 {
        s
    } else {
        Seq::new((10 - s.len()) as nat, |i: int| '0') + s
    }
}

/// The cross-reference line of an in-use object at byte `offset`: the
/// offset as ten zero-padded digits, generation `00000`, `n`.
pub open spec fn xref_line(offset: nat) -> Seq<char> {
    pad10(decimal(offset)) + " 00000 n "@ + seq!['\n']
}

/// Appends the cross-reference line for `offset` to `out`.
pub fn push_xref_line(out: &mut String, offset: usize)
    ensures
        final(out)@ == old(out)@ + xref_line(offset as nat),
{
    let mut digits = String::new();
    push_decimal(&mut digits, offset as u64);
    let n = digits.unicode_len();
    if n < 10 {
        let mut k: usize = 0;
        let ghost start = out@;
        while k < 10 - n
            invariant
                n < 10,
                k <= 10 - n,
                out@ == start + Seq::new(k as nat, |i: int| '0'),
            decreases 10 - n - k,
        {
            push_char(out, '0');
            k = k + 1;
            assert(out@ =~= start + Seq::new(k as nat, |i: int| '0'));
        }
    }
    let ghost before = out@;
    out.append(digits.as_str());
    out.append(" 00000 n ");
    push_char(out, '\n');
    assert(out@ =~= old(out)@ + xref_line(offset as nat));
}

/// Inserts `x` after every entry whose object number is at most `x`'s.
pub open spec fn insert_by_id(s: Seq<(u32, usize)>, x: (u32, usize)) -> Seq<(u32, usize)>
    decreases s.len(),
{
    if s.len() == 0 {
        seq![x]
    } else if s.last().0 <= x.0 {
        s.push(x)
    } else {
        insert_by_id(s.drop_last(), x).push(s.last())
    }
}

/// The entries stably sorted by object number.
pub open spec fn sort_by_id(s: Seq<(u32, usize)>) -> Seq<(u32, usize)>
    decreases s.len(),
{
    if s.len() == 0 {
        s
    } else {
        insert_by_id(sort_by_id(s.drop_last()), s.last())
    }
}

fn insert_entry(v: &mut Vec<(u32, usize)>, x: (u32, usize))
    ensures
        final(v)@ == insert_by_id(old(v)@, x),
{
    let ghost s = v@;
    let mut j = v.len();
    assert(s.take(j as int) == s);
    assert(s.skip(j as int) == Seq::<(u32, usize)>::empty());
    while j > 0 && v[j - 1].0 > x.0
        invariant
            j <= s.len(),
            v@ == s,
            insert_by_id(s, x) == insert_by_id(s.take(j as int), x) + s.skip(j as int),
        decreases j,
    {
        let ghost t = s.take(j as int);
        assert(t.drop_last() == s.take(j - 1));
        assert(t.last() == s[j - 1]);
        assert(s.skip(j - 1) == seq![s[j - 1]] + s.skip(j as int));
        assert(insert_by_id(s.take(j - 1), x).push(s[j - 1]) + s.skip(j as int)
            == insert_by_id(s.take(j - 1), x) + s.skip(j - 1));
        j = j - 1;
    }
    let ghost t = s.take(j as int);
    if j > 0 {
        assert(t.last() == s[j - 1]);
    }
    assert(insert_by_id(t, x) == t.push(x));
    v.insert(j, x);
    assert(v@ =~= t.push(x) + s.skip(j as int));
}

/// Sorts cross-reference entries by object number, keeping the order of
/// entries with the same number (a stable sort, as `sort_by_key`).
pub fn sort_xref_entries(entries: &Vec<(u32, usize)>) -> (r: Vec<(u32, usize)>)
    ensures
        r@ == sort_by_id(entries@),
{
    let mut out: Vec<(u32, usize)> = Vec::new();
    let mut i: usize = 0;
    while i < entries.len()
        invariant
            i <= entries.len(),
            out@ == sort_by_id(entries@.take(i as int)),
        decreases entries.len() - i,
    {
        assert(entries@.take(i + 1).drop_last() == entries@.take(i as int));
        insert_entry(&mut out, entries[i]);
        i = i + 1;
    }
    assert(entries@.take(entries.len() as int) == entries@);
    out
}

proof fn lemma_insert_by_id_props(s: Seq<(u32, usize)>, x: (u32, usize))
    requires
        forall|i: int, j: int| 0 <= i < j < s.len() ==> s[i].0 <= s[j].0,
    ensures
        forall|i: int, j: int|
            0 <= i < j < insert_by_id(s, x).len() ==> insert_by_id(s, x)[i].0 <= insert_by_id(
                s,
                x,
            )[j].0,
        insert_by_id(s, x).to_multiset() == s.to_multiset().insert(x),
        insert_by_id(s, x).len() == s.len() + 1,
        s.len() > 0 ==> insert_by_id(s, x).last() == s.last() || insert_by_id(s, x).last() == x,
    decreases s.len(),
{
    broadcast use vstd::seq_lib::group_to_multiset_ensures;

    if s.len() > 0 {
        if s.last().0 <= x.0 {
        } else {
            let p = s.drop_last();
            lemma_insert_by_id_props(p, x);
            let q = insert_by_id(p, x);
            assert(s == p.push(s.last()));
            assert(q.push(s.last()).to_multiset() == q.to_multiset().insert(s.last()));
            assert(s.to_multiset() == p.to_multiset().insert(s.last()));
            assert(q.to_multiset().insert(s.last()) =~= s.to_multiset().insert(x));
            assert forall|i: int, j: int|
                0 <= i < j < q.len() + 1 implies #[trigger] q.push(s.last())[i].0 <= #[trigger] q.push(
                s.last(),
            )[j].0 by {
                if j == q.len() {
                    if p.len() > 0 {
                        assert(q.to_multiset().count(q[i]) > 0);
                        assert(q.to_multiset().contains(q[i]));
                        assert(q.contains(q[i]));
                        let qi = q[i];
                        assert(p.to_multiset().insert(x).contains(qi));
                        if qi != x {
                            assert(p.to_multiset().contains(qi));
                            assert(p.contains(qi));
                            let k = choose|k: int| 0 <= k < p.len() && p[k] == qi;
                            assert(s[k] == qi);
                        }
                    } else {
                        assert(q == seq![x]);
                    }
                }
            }
        }
    }
}

/// Sorting orders the entries by object number.
pub proof fn lemma_sort_by_id_sorted(s: Seq<(u32, usize)>)
    ensures
        forall|i: int, j: int|
            0 <= i < j < sort_by_id(s).len() ==> sort_by_id(s)[i].0 <= sort_by_id(s)[j].0,
        sort_by_id(s).to_multiset() == s.to_multiset(),
        sort_by_id(s).len() == s.len(),
    decreases s.len(),
{
    broadcast use vstd::seq_lib::group_to_multiset_ensures;

    if s.len() > 0 {
        lemma_sort_by_id_sorted(s.drop_last());
        lemma_insert_by_id_props(sort_by_id(s.drop_last()), s.last());
        assert(s == s.drop_last().push(s.last()));
    }
}

/// The cross-reference lines of the entries, in the given order.
pub open spec fn xref_lines(s: Seq<(u32, usize)>) -> Seq<char>
    decreases s.len(),
{
    if s.len() == 0 {
        Seq::empty()
    } else {
        xref_lines(s.drop_last()) + xref_line(s.last().1 as nat)
    }
}

/// The cross-reference section for objects `0 .. size`: the header, the
/// free entry of object 0, then one in-use line per entry, sorted by
/// object number.
pub open spec fn xref_section_spec(size: nat, entries: Seq<(u32, usize)>) -> Seq<char> {
    "xref\n"@ + "0 "@ + decimal(size) + seq!['\n'] + "0000000000 65535 f \n"@ + xref_lines(
        sort_by_id(entries),
    )
}

/// The cross-reference section of a PDF file.
pub fn xref_section(size: u32, entries: &Vec<(u32, usize)>) -> (r: String)
    ensures
        r@ == xref_section_spec(size as nat, entries@),
{
    let sorted = sort_xref_entries(entries);
    let mut out = String::new();
    out.append("xref\n");
    out.append("0 ");
    push_decimal(&mut out, size as u64);
    push_char(&mut out, '\n');
    out.append("0000000000 65535 f \n");
    let ghost head = out@;
    let mut i: usize = 0;
    while i < sorted.len()
        invariant
            i <= sorted.len(),
            out@ == head + xref_lines(sorted@.take(i as int)),
        decreases sorted.len() - i,
    {
        assert(sorted@.take(i + 1).drop_last() == sorted@.take(i as int));
        push_xref_line(&mut out, sorted[i].1);
        i = i + 1;
    }
    assert(sorted@.take(sorted.len() as int) == sorted@);
    out
}

/// The end of the file after the trailer dictionary: the offset of the
/// cross-reference section and the end-of-file marker.
pub fn startxref_tail(xref_start: usize) -> (r: String)
    ensures
        r@ == "startxref\n"@ + decimal(xref_start as nat) + seq!['\n'] + "%%EOF"@,
{
    let mut out = String::new();
    out.append("startxref\n");
    push_decimal(&mut out, xref_start as u64);
    push_char(&mut out, '\n');
    out.append("%%EOF");
    out
}

/// The zlib (FlateDecode) compression of `data` that the `flate2` encoder
/// at the default level produces, or `None` when the encoder fails.
pub uninterp spec fn zlib_compressed(data: Seq<u8>) -> Option<Seq<u8>>;

/// Compresses `data` with `flate2::write::ZlibEncoder` at the default
/// compression level (`new`, `write_all`, `finish`). The contract claims
/// only that the result is a function of `data`; what the bytes are is
/// left to `flate2`.
#[verifier::external_body]
fn compress_data(data: &[u8]) -> (r: Option<Vec<u8>>)
    ensures
        match r {
            Some(c) => zlib_compressed(data@) == Some(c@),
            None => zlib_compressed(data@) is None,
        },
{
    let mut encoder = flate2::write::ZlibEncoder::new(Vec::new(), flate2::Compression::default());
    match encoder.write_all(data) {
        Ok(()) => encoder.finish().ok(),
        Err(_) => None,
    }
}

/// The bytes of a page content stream and whether they are compressed:
/// the raw bytes unless compression is on and succeeds.
pub fn encode_content_stream(raw: Vec<u8>, compress: bool) -> (r: (Vec<u8>, bool))
    ensures
        !compress ==> r.0@ == raw@ && !r.1,
        compress ==> match zlib_compressed(raw@) {
            Some(c) => r.0@ == c && r.1,
            None => r.0@ == raw@ && !r.1,
        },
{
    if compress {
        match compress_data(raw.as_slice()) {
            Some(compressed) => (compressed, true),
            None => (raw, false),
        }
    } else {
        (raw, false)
    }
}

/// The dictionary entries of a content stream: its `/Length`, and
/// `/Filter /FlateDecode` when it is compressed.
pub fn content_stream_dict(len: usize, compressed: bool) -> (r: Vec<(String, Object)>)
    ensures
        r.len() == if compressed {
            2int
        } else {
            1int
        },
        r@[0].0@ == "Length"@,
        r@[0].1 == Object::Integer(len as i64),
        compressed ==> r@[1].0@ == "Filter"@ && r@[1].1 is Name && r@[1].1->Name_0@
            == "FlateDecode"@,
{
    let mut v: Vec<(String, Object)> = Vec::new();
    v.push(("Length".to_owned(), Object::Integer(len as i64)));
    if compressed {
        v.push(("Filter".to_owned(), Object::Name("FlateDecode".to_owned())));
    }
    v
}


/// The serialized objects, one after the other.
pub open spec fn objects_bytes(objs: Seq<(u32, Vec<u8>)>) -> Seq<u8>
    decreases objs.len(),
{
    if objs.len() == 0 {
        Seq::empty()
    } else {
        objects_bytes(objs.drop_last()) + objs.last().1@
    }
}

/// Where each object starts when the objects are written one after the
/// other from byte `base` on.
pub open spec fn object_offsets(base: nat, objs: Seq<(u32, Vec<u8>)>) -> Seq<(u32, usize)> {
    Seq::new(
        objs.len(),
        |k: int| (objs[k].0, (base + objects_bytes(objs.take(k)).len()) as usize),
    )
}

proof fn lemma_objects_bytes_split(objs: Seq<(u32, Vec<u8>)>, j: int)
    requires
        0 <= j <= objs.len(),
    ensures
        objects_bytes(objs) == objects_bytes(objs.take(j)) + objects_bytes(objs.skip(j)),
    decreases objs.len(),
{
    if j == objs.len() {
        assert(objs.take(j) =~= objs);
        assert(objs.skip(j) =~= Seq::<(u32, Vec<u8>)>::empty());
    } else {
        lemma_objects_bytes_split(objs.drop_last(), j);
        assert(objs.drop_last().take(j) =~= objs.take(j));
        assert(objs.skip(j).drop_last() =~= objs.drop_last().skip(j));
        assert(objs.skip(j).last() == objs.last());
    }
}

/// Each object can be found again at its offset: the bytes from its
/// offset on are exactly its serialization.
pub proof fn lemma_object_offsets_locate(base: Seq<u8>, objs: Seq<(u32, Vec<u8>)>, k: int)
    requires
        0 <= k < objs.len(),
        base.len() + objects_bytes(objs).len() <= usize::MAX,
    ensures
        ({
            let file = base + objects_bytes(objs);
            let off = object_offsets(base.len(), objs)[k].1 as int;
            &&& object_offsets(base.len(), objs)[k].0 == objs[k].0
            &&& file.subrange(off, off + objs[k].1@.len()) == objs[k].1@
        }),
{
    lemma_objects_bytes_split(objs, k + 1);
    assert(objs.take(k + 1).drop_last() =~= objs.take(k));
    assert(objs.take(k + 1).last() == objs[k]);
    let pre = objects_bytes(objs.take(k));
    let file = base + objects_bytes(objs);
    assert(file =~= (base + pre + objs[k].1@) + objects_bytes(objs.skip(k + 1)));
    let off = base.len() + pre.len();
    assert(file.subrange(off as int, (off + objs[k].1@.len()) as int) =~= objs[k].1@);
}

/// Appends the serialized objects to `out`, one after the other, and
/// returns the cross-reference entry (object number and byte offset) of
/// each.
pub fn append_objects(out: &mut Vec<u8>, objects: &Vec<(u32, Vec<u8>)>) -> (offsets: Vec<
    (u32, usize),
>)
    requires
        old(out)@.len() + objects_bytes(objects@).len() <= usize::MAX,
    ensures
        final(out)@ == old(out)@ + objects_bytes(objects@),
        offsets@ == object_offsets(old(out)@.len(), objects@),
{
    let ghost start = out@;
    let mut offsets: Vec<(u32, usize)> = Vec::new();
    let mut k: usize = 0;
    assert(objects@.take(0) =~= Seq::<(u32, Vec<u8>)>::empty());
    while k < objects.len()
        invariant
            k <= objects@.len(),
            start.len() + objects_bytes(objects@).len() <= usize::MAX,
            out@ == start + objects_bytes(objects@.take(k as int)),
            offsets@ == object_offsets(start.len(), objects@.take(k as int)),
        decreases objects.len() - k,
    {
        proof {
            lemma_objects_bytes_split(objects@, k + 1);
            assert(objects@.take(k + 1).drop_last() =~= objects@.take(k as int));
        }
        let off = out.len();
        offsets.push((objects[k].0, off));
        extend_bytes(out, objects[k].1.as_slice());
        proof {
            let t = objects@.take(k + 1);
            assert(forall|j: int| 0 <= j < k ==> #[trigger] t.take(j) =~= objects@.take(k as int).take(j));
            assert(t.take(k as int) =~= objects@.take(k as int));
            assert(offsets@ =~= object_offsets(start.len(), t));
        }
        k = k + 1;
    }
    assert(objects@.take(objects@.len() as int) =~= objects@);
    offsets
}

/// The complete file: header, objects, cross-reference section (entries
/// sorted by object number, `size` entries announced), trailer, and the
/// `startxref` tail pointing at the cross-reference section.
pub open spec fn pdf_file_spec(
    version: Seq<u8>,
    objs: Seq<(u32, Vec<u8>)>,
    size: nat,
    trailer: Seq<u8>,
) -> Seq<u8> {
    let head = pdf_header_spec(version);
    let body = head + objects_bytes(objs);
    let offsets = object_offsets(head.len(), objs);
    body + encode_utf8(xref_section_spec(size, offsets)) + encode_utf8("trailer\n"@) + trailer
        + encode_utf8("\n"@) + encode_utf8(
        "startxref\n"@ + decimal(body.len()) + seq!['\n'] + "%%EOF"@,
    )
}

/// Writes a complete PDF file from its serialized objects: the header for
/// `version`, each object in the given order, the cross-reference section
/// for objects `0 .. size` (with each object's byte offset, sorted by
/// object number), the serialized trailer dictionary, and the
/// `startxref` pointer to the cross-reference section.
pub fn write_pdf_file(
    version: &str,
    objects: &Vec<(u32, Vec<u8>)>,
    size: u32,
    trailer: &[u8],
) -> (r: Vec<u8>)
    requires
        pdf_header_spec(version.spec_bytes()).len() + objects_bytes(objects@).len() <= usize::MAX,
    ensures
        r@ == pdf_file_spec(version.spec_bytes(), objects@, size as nat, trailer@),
{
    let mut out = pdf_header(version);
    let ghost head = out@;
    let offsets = append_objects(&mut out, objects);
    let xref_start = out.len();
    let xref = xref_section(size, &offsets);
    let xb = xref.as_str().as_bytes_vec();
    extend_bytes(&mut out, xb.as_slice());
    let tb = "trailer\n".as_bytes_vec();
    extend_bytes(&mut out, tb.as_slice());
    extend_bytes(&mut out, trailer);
    let nl = "\n".as_bytes_vec();
    extend_bytes(&mut out, nl.as_slice());
    let tail = startxref_tail(xref_start);
    let tlb = tail.as_str().as_bytes_vec();
    extend_bytes(&mut out, tlb.as_slice());
    assert(out@ =~= pdf_file_spec(version.spec_bytes(), objects@, size as nat, trailer@));
    out
}


/// In a written file, the cross-reference entry of each object gives its
/// number and an offset at which its serialization starts, and the
/// offset named after `startxref` is where the cross-reference section
/// starts.
pub proof fn lemma_pdf_file_offsets(
    version: Seq<u8>,
    objs: Seq<(u32, Vec<u8>)>,
    size: nat,
    trailer: Seq<u8>,
    k: int,
)
    requires
        0 <= k < objs.len(),
        pdf_header_spec(version).len() + objects_bytes(objs).len() <= usize::MAX,
    ensures
        ({
            let file = pdf_file_spec(version, objs, size, trailer);
            let head = pdf_header_spec(version);
            let entry = object_offsets(head.len(), objs)[k];
            let xref_at = head.len() + objects_bytes(objs).len();
            let xref = encode_utf8(
                xref_section_spec(size, object_offsets(head.len(), objs)),
            );
            &&& entry.0 == objs[k].0
            &&& file.subrange(entry.1 as int, entry.1 + objs[k].1@.len()) == objs[k].1@
            &&& file.subrange(xref_at as int, (xref_at + xref.len()) as int) == xref
        }),
{
    let head = pdf_header_spec(version);
    let body = head + objects_bytes(objs);
    let file = pdf_file_spec(version, objs, size, trailer);
    let rest = file.subrange(body.len() as int, file.len() as int);
    assert(file =~= body + rest);
    lemma_object_offsets_locate(head, objs, k);
    let entry = object_offsets(head.len(), objs)[k];
    assert(entry.1 + objs[k].1@.len() <= body.len()) by {
        lemma_objects_bytes_split(objs, k + 1);
        assert(objs.take(k + 1).drop_last() =~= objs.take(k));
        assert(objs.take(k + 1).last() == objs[k]);
    }
    assert(file.subrange(entry.1 as int, entry.1 + objs[k].1@.len()) =~= body.subrange(
        entry.1 as int,
        entry.1 + objs[k].1@.len(),
    ));
    let xref = encode_utf8(xref_section_spec(size, object_offsets(head.len(), objs)));
    assert(file.subrange(body.len() as int, (body.len() + xref.len()) as int) =~= xref);
}


/// The numbers from `lo` up to (not including) `hi`.
pub open spec fn id_range(lo: int, hi: int) -> Seq<u32> {
    Seq::new((hi - lo) as nat, |i: int| (lo + i) as u32)
}

/// The sum of `s`.
pub open spec fn sum_counts(s: Seq<usize>) -> nat
    decreases s.len(),
{
    if s.len() == 0 {
        0
    } else {
        s[0] as nat + sum_counts(s.drop_first())
    }
}

/// Objects taken by the images of one page: one each, and one more for
/// an image with a soft mask.
pub open spec fn image_objects(masks: Seq<bool>) -> nat
    decreases masks.len(),
{
    if masks.len() == 0 {
        0
    } else {
        (if masks[0] {
            2nat
        } else {
            1nat
        }) + image_objects(masks.drop_first())
    }
}

/// Objects taken by the images of all pages.
pub open spec fn all_image_objects(pages: Seq<Vec<bool>>) -> nat
    decreases pages.len(),
{
    if pages.len() == 0 {
        0
    } else {
        image_objects(pages[0]@) + all_image_objects(pages.drop_first())
    }
}

/// The number of objects that the writer numbers at the end of a
/// document: catalog, page tree, a page and a content stream per page,
/// the annotations, form fields and images of each page, the interactive
/// form when there are fields, and the information dictionary.
pub open spec fn finish_object_count(
    annots: Seq<usize>,
    fields: Seq<usize>,
    images: Seq<Vec<bool>>,
) -> nat {
    2 + 2 * annots.len() + sum_counts(annots) + sum_counts(fields) + all_image_objects(images) + (
    if sum_counts(fields) > 0 {
        1nat
    } else {
        0nat
    }) + 1
}

/// Pairs, flattened in order.
pub open spec fn flat_pairs(s: Seq<(u32, u32)>) -> Seq<u32>
    decreases s.len(),
{
    if s.len() == 0 {
        Seq::empty()
    } else {
        flat_pairs(s.drop_last()) + seq![s.last().0, s.last().1]
    }
}

/// Lists, flattened in order.
pub open spec fn flat_lists(s: Seq<Vec<u32>>) -> Seq<u32>
    decreases s.len(),
{
    if s.len() == 0 {
        Seq::empty()
    } else {
        flat_lists(s.drop_last()) + s.last()@
    }
}

/// The numbers of one page's images: each image, then its soft mask.
pub open spec fn flat_images(s: Seq<(u32, Option<u32>)>) -> Seq<u32>
    decreases s.len(),
{
    if s.len() == 0 {
        Seq::empty()
    } else {
        flat_images(s.drop_last()) + match s.last().1 {
            Some(m) => seq![s.last().0, m],
            None => seq![s.last().0],
        }
    }
}

/// The numbers of all pages' images, page by page.
pub open spec fn flat_page_images(s: Seq<Vec<(u32, Option<u32>)>>) -> Seq<u32>
    decreases s.len(),
{
    if s.len() == 0 {
        Seq::empty()
    } else {
        flat_page_images(s.drop_last()) + flat_images(s.last()@)
    }
}

/// The object numbers that the end of a document takes, in the order in
/// which they are handed out.
pub struct ObjectIdPlan {
    /// The document catalog.
    pub catalog: u32,
    /// The page tree root.
    pub pages: u32,
    /// Per page, the page object and its content stream.
    pub page_ids: Vec<(u32, u32)>,
    /// Per page, its annotations.
    pub annot_ids: Vec<Vec<u32>>,
    /// Per page, its form fields.
    pub field_ids: Vec<Vec<u32>>,
    /// Per page, its images and their soft masks.
    pub image_ids: Vec<Vec<(u32, Option<u32>)>>,
    /// The interactive form, when there are form fields.
    pub acroform: Option<u32>,
    /// The document information dictionary.
    pub info: u32,
    /// The first unused number: the `/Size` of the cross-reference table.
    pub size: u32,
}

/// All numbers of a plan, in the order in which they are handed out.
pub open spec fn plan_ids(p: ObjectIdPlan) -> Seq<u32> {
    seq![p.catalog, p.pages] + flat_pairs(p.page_ids@) + flat_lists(p.annot_ids@) + flat_lists(
        p.field_ids@,
    ) + flat_page_images(p.image_ids@) + match p.acroform {
        Some(a) => seq![a],
        None => Seq::empty(),
    } + seq![p.info]
}

proof fn lemma_id_range_concat(a: int, b: int, c: int)
    requires
        a <= b <= c,
    ensures
        id_range(a, b) + id_range(b, c) == id_range(a, c),
{
    assert(id_range(a, b) + id_range(b, c) =~= id_range(a, c));
}

/// Consecutive object numbers are pairwise distinct.
pub proof fn lemma_id_range_distinct(lo: int, hi: int)
    requires
        0 <= lo <= hi <= u32::MAX + 1,
    ensures
        id_range(lo, hi).no_duplicates(),
{
}

proof fn lemma_sum_counts_step(s: Seq<usize>, i: int)
    requires
        0 <= i < s.len(),
    ensures
        sum_counts(s.skip(i)) == s[i] + sum_counts(s.skip(i + 1)),
{
    assert(s.skip(i).drop_first() =~= s.skip(i + 1));
}

proof fn lemma_image_objects_step(s: Seq<bool>, i: int)
    requires
        0 <= i < s.len(),
    ensures
        image_objects(s.skip(i)) == (if s[i] {
            2nat
        } else {
            1nat
        }) + image_objects(s.skip(i + 1)),
{
    assert(s.skip(i).drop_first() =~= s.skip(i + 1));
}

proof fn lemma_all_image_objects_step(s: Seq<Vec<bool>>, i: int)
    requires
        0 <= i < s.len(),
    ensures
        all_image_objects(s.skip(i)) == image_objects(s[i]@) + all_image_objects(s.skip(i + 1)),
{
    assert(s.skip(i).drop_first() =~= s.skip(i + 1));
}

fn take_id(next: &mut u32) -> (r: u32)
    requires
        *old(next) < u32::MAX,
    ensures
        r == *old(next),
        *final(next) == *old(next) + 1,
{
    let id = *next;
    *next = *next + 1;
    id
}

/// Numbers a page object and a content stream for each of `n` pages.
fn take_page_ids(next: &mut u32, n: usize) -> (r: Vec<(u32, u32)>)
    requires
        *old(next) + 2 * n <= u32::MAX,
    ensures
        *final(next) == *old(next) + 2 * n,
        r@.len() == n,
        flat_pairs(r@) == id_range(*old(next) as int, *final(next) as int),
{
    let ghost start = *next as int;
    let mut out: Vec<(u32, u32)> = Vec::new();
    let mut i: usize = 0;
    assert(flat_pairs(out@) =~= id_range(start, start));
    while i < n
        invariant
            i <= n,
            start + 2 * n <= u32::MAX,
            *next == start + 2 * i,
            out@.len() == i,
            flat_pairs(out@) == id_range(start, *next as int),
        decreases n - i,
    {
        let ghost before = out@;
        let page = take_id(next);
        let content = take_id(next);
        out.push((page, content));
        assert(out@.drop_last() =~= before);
        assert(flat_pairs(out@) =~= id_range(start, *next as int));
        i = i + 1;
    }
    out
}

/// Numbers `counts[i]` objects for each entry `i`.
fn take_list_ids(next: &mut u32, counts: &Vec<usize>) -> (r: Vec<Vec<u32>>)
    requires
        *old(next) + sum_counts(counts@) <= u32::MAX,
    ensures
        *final(next) == *old(next) + sum_counts(counts@),
        r@.len() == counts@.len(),
        forall|i: int| 0 <= i < r@.len() ==> #[trigger] r@[i]@.len() == counts@[i],
        flat_lists(r@) == id_range(*old(next) as int, *final(next) as int),
{
    let ghost start = *next as int;
    let ghost total = sum_counts(counts@);
    let mut out: Vec<Vec<u32>> = Vec::new();
    let mut i: usize = 0;
    assert(counts@.skip(0) =~= counts@);
    assert(flat_lists(out@) =~= id_range(start, start));
    while i < counts.len()
        invariant
            i <= counts@.len(),
            start + total <= u32::MAX,
            total == sum_counts(counts@),
            *next + sum_counts(counts@.skip(i as int)) == start + total,
            start <= *next,
            out@.len() == i,
            forall|k: int| 0 <= k < i ==> #[trigger] out@[k]@.len() == counts@[k],
            flat_lists(out@) == id_range(start, *next as int),
        decreases counts.len() - i,
    {
        proof {
            lemma_sum_counts_step(counts@, i as int);
        }
        let ghost first = *next as int;
        let mut cur: Vec<u32> = Vec::new();
        let mut j: usize = 0;
        assert(cur@ =~= id_range(first, first));
        while j < counts[i]
            invariant
                i < counts@.len(),
                j <= counts@[i as int],
                *next + (counts@[i as int] - j) + sum_counts(counts@.skip(i + 1)) == start + total,
                start + total <= u32::MAX,
                *next == first + j,
                cur@ == id_range(first, *next as int),
            decreases counts@[i as int] - j,
        {
            let id = take_id(next);
            cur.push(id);
            assert(cur@ =~= id_range(first, *next as int));
            j = j + 1;
        }
        let ghost before = out@;
        out.push(cur);
        proof {
            assert(out@.drop_last() =~= before);
            lemma_id_range_concat(start, first, *next as int);
        }
        i = i + 1;
    }
    assert(counts@.skip(i as int) =~= Seq::<usize>::empty());
    out
}

/// Numbers each image of a page, and its soft mask when it has one.
fn take_image_ids(next: &mut u32, masks: &Vec<bool>) -> (r: Vec<(u32, Option<u32>)>)
    requires
        *old(next) + image_objects(masks@) <= u32::MAX,
    ensures
        *final(next) == *old(next) + image_objects(masks@),
        r@.len() == masks@.len(),
        forall|j: int| 0 <= j < r@.len() ==> (#[trigger] r@[j].1 is Some) == masks@[j],
        flat_images(r@) == id_range(*old(next) as int, *final(next) as int),
{
    let ghost start = *next as int;
    let ghost total = image_objects(masks@);
    let mut out: Vec<(u32, Option<u32>)> = Vec::new();
    let mut j: usize = 0;
    assert(masks@.skip(0) =~= masks@);
    assert(flat_images(out@) =~= id_range(start, start));
    while j < masks.len()
        invariant
            j <= masks@.len(),
            start + total <= u32::MAX,
            total == image_objects(masks@),
            *next + image_objects(masks@.skip(j as int)) == start + total,
            start <= *next,
            out@.len() == j,
            forall|k: int| 0 <= k < j ==> (#[trigger] out@[k].1 is Some) == masks@[k],
            flat_images(out@) == id_range(start, *next as int),
        decreases masks.len() - j,
    {
        proof {
            lemma_image_objects_step(masks@, j as int);
        }
        let ghost before = out@;
        let ghost n0 = *next as int;
        let img = take_id(next);
        let mask = if masks[j] {
            Some(take_id(next))
        } else {
            None
        };
        out.push((img, mask));
        proof {
            assert(out@.drop_last() =~= before);
            assert(out@.last() == (img, mask));
            lemma_id_range_concat(start, n0, *next as int);
            if masks@[j as int] {
                assert(id_range(n0, *next as int) =~= seq![img, mask->0]);
                assert(flat_images(out@) == flat_images(before) + seq![img, mask->0]);
            } else {
                assert(id_range(n0, *next as int) =~= seq![img]);
                assert(flat_images(out@) == flat_images(before) + seq![img]);
            }
        }
        j = j + 1;
    }
    assert(masks@.skip(j as int) =~= Seq::<bool>::empty());
    out
}

/// Numbers the images of every page.
fn take_page_image_ids(next: &mut u32, pages: &Vec<Vec<bool>>) -> (r: Vec<
    Vec<(u32, Option<u32>)>,
>)
    requires
        *old(next) + all_image_objects(pages@) <= u32::MAX,
    ensures
        *final(next) == *old(next) + all_image_objects(pages@),
        r@.len() == pages@.len(),
        forall|i: int|
            0 <= i < r@.len() ==> #[trigger] r@[i]@.len() == pages@[i]@.len() && forall|j: int|
                0 <= j < r@[i]@.len() ==> (#[trigger] r@[i]@[j].1 is Some) == pages@[i]@[j],
        flat_page_images(r@) == id_range(*old(next) as int, *final(next) as int),
{
    let ghost start = *next as int;
    let ghost total = all_image_objects(pages@);
    let mut out: Vec<Vec<(u32, Option<u32>)>> = Vec::new();
    let mut i: usize = 0;
    assert(pages@.skip(0) =~= pages@);
    assert(flat_page_images(out@) =~= id_range(start, start));
    while i < pages.len()
        invariant
            i <= pages@.len(),
            start + total <= u32::MAX,
            total == all_image_objects(pages@),
            *next + all_image_objects(pages@.skip(i as int)) == start + total,
            start <= *next,
            out@.len() == i,
            forall|k: int|
                0 <= k < i ==> #[trigger] out@[k]@.len() == pages@[k]@.len() && forall|j: int|
                    0 <= j < out@[k]@.len() ==> (#[trigger] out@[k]@[j].1 is Some)
                        == pages@[k]@[j],
            flat_page_images(out@) == id_range(start, *next as int),
        decreases pages.len() - i,
    {
        proof {
            lemma_all_image_objects_step(pages@, i as int);
        }
        let ghost first = *next as int;
        let ghost before = out@;
        let cur = take_image_ids(next, &pages[i]);
        out.push(cur);
        proof {
            assert(out@.drop_last() =~= before);
            lemma_id_range_concat(start, first, *next as int);
        }
        i = i + 1;
    }
    assert(pages@.skip(i as int) =~= Seq::<Vec<bool>>::empty());
    out
}


/// Numbers the objects written at the end of a document, in the order
/// the writer hands the numbers out: the catalog, the page tree, a page
/// object and a content stream per page, then per page its annotations
/// (`annots[i]` of them), its form fields (`fields[i]`) and its images
/// (`images[i]`, one more number for each image with a soft mask), the
/// interactive form when there is at least one field, and the
/// information dictionary. Numbering starts at `next_id`, the first
/// number that fonts left unused.
pub fn plan_object_ids(
    next_id: u32,
    annots: &Vec<usize>,
    fields: &Vec<usize>,
    images: &Vec<Vec<bool>>,
) -> (p: ObjectIdPlan)
    requires
        fields@.len() == annots@.len(),
        images@.len() == annots@.len(),
        next_id + finish_object_count(annots@, fields@, images@) <= u32::MAX,
    ensures
        plan_ids(p) == id_range(next_id as int, p.size as int),
        plan_ids(p).no_duplicates(),
        p.size == next_id + finish_object_count(annots@, fields@, images@),
        p.page_ids@.len() == annots@.len(),
        p.annot_ids@.len() == annots@.len(),
        p.field_ids@.len() == annots@.len(),
        p.image_ids@.len() == annots@.len(),
        forall|i: int| 0 <= i < annots@.len() ==> #[trigger] p.annot_ids@[i]@.len() == annots@[i],
        forall|i: int| 0 <= i < annots@.len() ==> #[trigger] p.field_ids@[i]@.len() == fields@[i],
        forall|i: int|
            0 <= i < annots@.len() ==> #[trigger] p.image_ids@[i]@.len() == images@[i]@.len()
                && forall|j: int|
                0 <= j < p.image_ids@[i]@.len() ==> (#[trigger] p.image_ids@[i]@[j].1 is Some)
                    == images@[i]@[j],
        (p.acroform is Some) == (sum_counts(fields@) > 0),
{
    let mut next = next_id;
    let catalog = take_id(&mut next);
    let pages = take_id(&mut next);
    let n0 = next;
    let page_ids = take_page_ids(&mut next, annots.len());
    let n1 = next;
    let annot_ids = take_list_ids(&mut next, annots);
    let n2 = next;
    let field_ids = take_list_ids(&mut next, fields);
    let n3 = next;
    let image_ids = take_page_image_ids(&mut next, images);
    let n4 = next;
    let acroform = if n3 > n2 {
        Some(take_id(&mut next))
    } else {
        None
    };
    let n5 = next;
    let info = take_id(&mut next);
    let p = ObjectIdPlan {
        catalog,
        pages,
        page_ids,
        annot_ids,
        field_ids,
        image_ids,
        acroform,
        info,
        size: next,
    };
    proof {
        let a = next_id as int;
        lemma_id_range_concat(a, a + 2, n0 as int);
        assert(seq![catalog, pages] =~= id_range(a, a + 2));
        lemma_id_range_concat(a, n0 as int, n1 as int);
        lemma_id_range_concat(a, n1 as int, n2 as int);
        lemma_id_range_concat(a, n2 as int, n3 as int);
        lemma_id_range_concat(a, n3 as int, n4 as int);
        lemma_id_range_concat(a, n4 as int, n5 as int);
        lemma_id_range_concat(a, n5 as int, next as int);
        assert(seq![info] =~= id_range(n5 as int, next as int));
        match acroform {
            Some(f) => {
                assert(seq![f] =~= id_range(n4 as int, n5 as int));
            },
            None => {
                assert(Seq::<u32>::empty() =~= id_range(n4 as int, n5 as int));
            },
        }
        assert(plan_ids(p) =~= id_range(a, next as int));
        lemma_id_range_distinct(a, next as int);
    }
    p
}


/// A reference to object `id`, generation 0.
pub open spec fn ref_to(id: u32) -> Object {
    Object::Reference(id, 0)
}

/// The document catalog: `/Type /Catalog`, `/Pages`, and `/AcroForm`
/// when the document has an interactive form.
pub fn catalog_dict(pages_id: u32, acroform_id: Option<u32>) -> (r: Vec<(String, Object)>)
    ensures
        r@.len() == if acroform_id is Some {
            3int
        } else {
            2int
        },
        r@[0].0@ == "Type"@ && r@[0].1 is Name && r@[0].1->Name_0@ == "Catalog"@,
        r@[1].0@ == "Pages"@ && r@[1].1 == ref_to(pages_id),
        acroform_id is Some ==> r@[2].0@ == "AcroForm"@ && r@[2].1 == ref_to(acroform_id->0),
{
    let mut v: Vec<(String, Object)> = Vec::new();
    v.push(("Type".to_owned(), Object::Name("Catalog".to_owned())));
    v.push(("Pages".to_owned(), Object::Reference(pages_id, 0)));
    if let Some(a) = acroform_id {
        v.push(("AcroForm".to_owned(), Object::Reference(a, 0)));
    }
    v
}

/// The page tree root: `/Type /Pages`, `/Kids` (a reference to each page
/// object, in page order) and `/Count`.
pub fn pages_dict(page_ids: &Vec<(u32, u32)>) -> (r: Vec<(String, Object)>)
    requires
        page_ids@.len() <= i64::MAX,
    ensures
        r@.len() == 3,
        r@[0].0@ == "Type"@ && r@[0].1 is Name && r@[0].1->Name_0@ == "Pages"@,
        r@[1].0@ == "Kids"@ && r@[1].1 is Array && r@[1].1->Array_0@.len() == page_ids@.len()
            && forall|i: int|
            0 <= i < page_ids@.len() ==> #[trigger] r@[1].1->Array_0@[i] == ref_to(
                page_ids@[i].0,
            ),
        r@[2].0@ == "Count"@ && r@[2].1 == Object::Integer(page_ids@.len() as i64),
{
    let mut kids: Vec<Object> = Vec::new();
    let mut i: usize = 0;
    while i < page_ids.len()
        invariant
            i <= page_ids@.len(),
            kids@.len() == i,
            forall|k: int| 0 <= k < i ==> #[trigger] kids@[k] == ref_to(page_ids@[k].0),
        decreases page_ids.len() - i,
    {
        kids.push(Object::Reference(page_ids[i].0, 0));
        i = i + 1;
    }
    let mut v: Vec<(String, Object)> = Vec::new();
    v.push(("Type".to_owned(), Object::Name("Pages".to_owned())));
    v.push(("Kids".to_owned(), Object::Array(kids)));
    v.push(("Count".to_owned(), Object::Integer(page_ids.len() as i64)));
    v
}

/// The trailer dictionary: `/Size`, `/Root` (the catalog) and `/Info`.
pub fn trailer_dict(size: u32, catalog_id: u32, info_id: u32) -> (r: Vec<(String, Object)>)
    ensures
        r@.len() == 3,
        r@[0].0@ == "Size"@ && r@[0].1 == Object::Integer(size as i64),
        r@[1].0@ == "Root"@ && r@[1].1 == ref_to(catalog_id),
        r@[2].0@ == "Info"@ && r@[2].1 == ref_to(info_id),
{
    let mut v: Vec<(String, Object)> = Vec::new();
    v.push(("Size".to_owned(), Object::Integer(size as i64)));
    v.push(("Root".to_owned(), Object::Reference(catalog_id, 0)));
    v.push(("Info".to_owned(), Object::Reference(info_id, 0)));
    v
}


/// Colour spaces of image content elements.
#[derive(Debug, Clone, Copy, PartialEq, Eq, Structural)]
pub enum ElementColorSpace {
    Gray,
    CMYK,
    RGB,
    Indexed,
    Lab,
}

/// Encodings of image content elements.
#[derive(Debug, Clone, Copy, PartialEq, Eq, Structural)]
pub enum ElementImageFormat {
    Jpeg,
    Png,
    /// Any other encoding.
    Other,
}

/// An image placed on a page.
pub struct ImageContent {
    /// Width in pixels.
    pub width: u32,
    /// Height in pixels.
    pub height: u32,
    /// Bits per colour component.
    pub bits_per_component: u8,
    /// Colour space of the samples.
    pub color_space: ElementColorSpace,
    /// Encoding of `data`.
    pub format: ElementImageFormat,
    /// The image data.
    pub data: Vec<u8>,
    /// The compressed alpha channel, when the image has one.
    pub soft_mask: Option<Vec<u8>>,
}

/// Colour spaces that an image XObject is written with.
#[derive(Debug, Clone, Copy, PartialEq, Eq, Structural)]
pub enum XObjectColorSpace {
    DeviceGray,
    DeviceRGB,
    DeviceCMYK,
}

/// Encodings that an image XObject is written with.
#[derive(Debug, Clone, Copy, PartialEq, Eq, Structural)]
pub enum XObjectImageFormat {
    Jpeg,
    Png,
    Raw,
}

/// The payload of an image XObject.
pub struct ImageData {
    /// Width in pixels.
    pub width: u32,
    /// Height in pixels.
    pub height: u32,
    /// Bits per colour component.
    pub bits_per_component: u8,
    /// Colour space of the samples.
    pub color_space: XObjectColorSpace,
    /// Encoding of `data`.
    pub format: XObjectImageFormat,
    /// The image data.
    pub data: Vec<u8>,
    /// The compressed alpha channel, when the image has one.
    pub soft_mask: Option<Vec<u8>>,
}

/// The XObject colour space of an element colour space. Indexed and Lab
/// images are not modelled by the writer and are written as DeviceRGB.
pub open spec fn xobject_color_space(cs: ElementColorSpace) -> XObjectColorSpace {
    match cs {
        ElementColorSpace::Gray => XObjectColorSpace::DeviceGray,
        ElementColorSpace::CMYK => XObjectColorSpace::DeviceCMYK,
        _ => XObjectColorSpace::DeviceRGB,
    }
}

/// The number of colour components of an element colour space that the
/// writer models: 1 for gray, 3 for RGB, 4 for CMYK.
pub open spec fn element_components(cs: ElementColorSpace) -> Option<nat> {
    match cs {
        ElementColorSpace::Gray => Some(1),
        ElementColorSpace::RGB => Some(3),
        ElementColorSpace::CMYK => Some(4),
        _ => None,
    }
}

/// The number of colour components of an XObject colour space.
pub open spec fn xobject_components(cs: XObjectColorSpace) -> nat {
    match cs {
        XObjectColorSpace::DeviceGray => 1,
        XObjectColorSpace::DeviceRGB => 3,
        XObjectColorSpace::DeviceCMYK => 4,
    }
}

/// An image is written in a colour space with as many components as its
/// own: gray as DeviceGray, RGB as DeviceRGB, CMYK as DeviceCMYK. Only the
/// spaces that the writer does not model (Indexed, Lab) fall back to
/// DeviceRGB.
pub proof fn lemma_xobject_keeps_components(cs: ElementColorSpace)
    ensures
        element_components(cs) matches Some(n) ==> xobject_components(xobject_color_space(cs)) == n,
        element_components(cs) is None ==> xobject_color_space(cs) == XObjectColorSpace::DeviceRGB,
{
}

/// The XObject encoding of an element encoding: JPEG and PNG are kept,
/// anything else is raw.
pub open spec fn xobject_format(f: ElementImageFormat) -> XObjectImageFormat {
    match f {
        ElementImageFormat::Jpeg => XObjectImageFormat::Jpeg,
        ElementImageFormat::Png => XObjectImageFormat::Png,
        ElementImageFormat::Other => XObjectImageFormat::Raw,
    }
}

fn copy_opt_bytes(o: &Option<Vec<u8>>) -> (r: Option<Vec<u8>>)
    ensures
        r is Some == o is Some,
        r is Some ==> r->0@ == o->0@,
{
    match o {
        Some(v) => {
            let mut c: Vec<u8> = Vec::new();
            extend_bytes(&mut c, v.as_slice());
            assert(c@ =~= v@);
            Some(c)
        },
        None => None,
    }
}

/// Converts an image placed on a page into the payload of its image
/// XObject, and returns its soft mask (the payload of the `/SMask`
/// XObject) alongside.
pub fn image_content_to_xobject_stream(image: &ImageContent) -> (r: (ImageData, Option<Vec<u8>>))
    ensures
        r.0.width == image.width,
        r.0.height == image.height,
        r.0.bits_per_component == image.bits_per_component,
        r.0.color_space == xobject_color_space(image.color_space),
        element_components(image.color_space) matches Some(n) ==> xobject_components(
            r.0.color_space,
        ) == n,
        r.0.format == xobject_format(image.format),
        r.0.data@ == image.data@,
        r.0.soft_mask is Some == image.soft_mask is Some,
        r.0.soft_mask is Some ==> r.0.soft_mask->0@ == image.soft_mask->0@,
        r.1 is Some == image.soft_mask is Some,
        r.1 is Some ==> r.1->0@ == image.soft_mask->0@,
{
    let color_space = match image.color_space {
        ElementColorSpace::Gray => XObjectColorSpace::DeviceGray,
        ElementColorSpace::CMYK => XObjectColorSpace::DeviceCMYK,
        ElementColorSpace::RGB => XObjectColorSpace::DeviceRGB,
        ElementColorSpace::Indexed | ElementColorSpace::Lab => XObjectColorSpace::DeviceRGB,
    };
    let format = match image.format {
        ElementImageFormat::Jpeg => XObjectImageFormat::Jpeg,
        ElementImageFormat::Png => XObjectImageFormat::Png,
        ElementImageFormat::Other => XObjectImageFormat::Raw,
    };
    let soft_mask = copy_opt_bytes(&image.soft_mask);
    let mut data: Vec<u8> = Vec::new();
    extend_bytes(&mut data, image.data.as_slice());
    assert(data@ =~= image.data@);
    let data = ImageData {
        width: image.width,
        height: image.height,
        bits_per_component: image.bits_per_component,
        color_space,
        format,
        data,
        soft_mask: copy_opt_bytes(&soft_mask),
    };
    (data, soft_mask)
}

} // verus!
