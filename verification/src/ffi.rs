//! The value-level logic behind the C interface: error codes, log levels,
//! option codes, and the handles that the interface hands out.
//!
//! The `extern "C"` shells themselves (raw pointers, C strings, out
//! parameters) live outside the verified library; they call these
//! functions with plain values.
use crate::error::Error;
use crate::signatures::cms_verify::{
    verify_detached_spec, verify_signer, verify_signer_detached, verify_signer_spec, SignerVerify,
};
use crate::text::{
    decimal, occurs_at, push_decimal, push_quoted, quoted, seq_contains, str_contains, str_eq,
};
use vstd::prelude::*;
use vstd::string::StrSliceExecFns;
use vstd::utf8::encode_utf8;

verus! {

broadcast use vstd::string::group_string_axioms;

/// Success.
pub const ERR_SUCCESS: i32 = 0;

/// Invalid argument or path.
pub const ERR_INVALID_ARG: i32 = 1;

/// File not found or I/O error.
pub const ERR_IO: i32 = 2;

/// Parse error or invalid PDF.
pub const ERR_PARSE: i32 = 3;

/// Extraction failed.
pub const ERR_EXTRACTION: i32 = 4;

/// Internal error.
pub const ERR_INTERNAL: i32 = 5;

/// Invalid page (or element) index.
pub const ERR_INVALID_PAGE: i32 = 6;

/// Search error.
pub const ERR_SEARCH: i32 = 7;

/// Unsupported feature.
pub const ERR_UNSUPPORTED: i32 = 8;

/// The error code for an error whose message is `msg`.
pub open spec fn error_code_for(msg: Seq<char>) -> i32 {
    if seq_contains(msg, "not found"@) || seq_contains(msg, "No such file"@) || seq_contains(
        msg,
        "IO"@,
    ) {
        ERR_IO
    } else if seq_contains(msg, "parse"@) || seq_contains(msg, "Parse"@) || seq_contains(
        msg,
        "Invalid PDF"@,
    ) {
        ERR_PARSE
    } else if seq_contains(msg, "page"@) || seq_contains(msg, "Page"@) || seq_contains(
        msg,
        "index"@,
    ) {
        ERR_INVALID_PAGE
    } else if seq_contains(msg, "search"@) || seq_contains(msg, "Search"@) {
        ERR_SEARCH
    } else {
        ERR_INTERNAL
    }
}

/// Classifies an error by its message: I/O (`not found`, `No such file`,
/// `IO`), then parse (`parse`, `Parse`, `Invalid PDF`), then page
/// (`page`, `Page`, `index`), then search; anything else is internal.
pub fn classify_error(msg: &str) -> (r: i32)
    ensures
        r == error_code_for(msg@),
        r == ERR_IO || r == ERR_PARSE || r == ERR_INVALID_PAGE || r == ERR_SEARCH || r
            == ERR_INTERNAL,
{
    if str_contains(msg, "not found") || str_contains(msg, "No such file") || str_contains(
        msg,
        "IO",
    ) {
        ERR_IO
    } else if str_contains(msg, "parse") || str_contains(msg, "Parse") || str_contains(
        msg,
        "Invalid PDF",
    ) {
        ERR_PARSE
    } else if str_contains(msg, "page") || str_contains(msg, "Page") || str_contains(
        msg,
        "index",
    ) {
        ERR_INVALID_PAGE
    } else if str_contains(msg, "search") || str_contains(msg, "Search") {
        ERR_SEARCH
    } else {
        ERR_INTERNAL
    }
}

/// The library's log verbosity.
#[derive(Debug, Clone, Copy, PartialEq, Eq, Structural)]
pub enum LogLevel {
    /// Nothing is logged.
    Off,
    /// Errors only.
    Error,
    /// Warnings and above.
    Warn,
    /// Informational messages and above.
    Info,
    /// Debug messages and above.
    Debug,
    /// Everything.
    Trace,
}

/// The level for a C level code: 0 off, 1 error, 2 warn, 3 info,
/// 4 debug, anything else trace.
pub open spec fn level_for_code(code: i32) -> LogLevel {
    if code == 0 {
        LogLevel::Off
    } else if code == 1 {
        LogLevel::Error
    } else if code == 2 {
        LogLevel::Warn
    } else if code == 3 {
        LogLevel::Info
    } else if code == 4 {
        LogLevel::Debug
    } else {
        LogLevel::Trace
    }
}

/// The C code of a level, 0 to 5.
pub open spec fn code_for_level(level: LogLevel) -> i32 {
    match level {
        LogLevel::Off => 0,
        LogLevel::Error => 1,
        LogLevel::Warn => 2,
        LogLevel::Info => 3,
        LogLevel::Debug => 4,
        LogLevel::Trace => 5,
    }
}

/// Reads a C log-level code.
pub fn log_level_from_code(code: i32) -> (r: LogLevel)
    ensures
        r == level_for_code(code),
{
    match code {
        0 => LogLevel::Off,
        1 => LogLevel::Error,
        2 => LogLevel::Warn,
        3 => LogLevel::Info,
        4 => LogLevel::Debug,
        _ => LogLevel::Trace,
    }
}

/// The C code of a log level.
pub fn log_level_code(level: LogLevel) -> (r: i32)
    ensures
        r == code_for_level(level),
        0 <= r <= 5,
{
    match level {
        LogLevel::Off => 0,
        LogLevel::Error => 1,
        LogLevel::Warn => 2,
        LogLevel::Info => 3,
        LogLevel::Debug => 4,
        LogLevel::Trace => 5,
    }
}

/// Reading back the code of the level set from a code gives the code for
/// 0 to 5 and 5 (trace) for anything else; and every level is the level
/// of its own code.
pub proof fn lemma_log_level_round_trip(code: i32, level: LogLevel)
    ensures
        code_for_level(level_for_code(code)) == (if 0 <= code <= 5 {
            code
        } else {
            5
        }),
        level_for_code(code_for_level(level)) == level,
{
}

/// `log::set_max_level` with the `LevelFilter` of the same name as
/// `level`. Nothing is claimed of the effect, which is global state.
#[verifier::external_body]
fn set_max_log_level(level: LogLevel) {
    log::set_max_level(
        match level {
            LogLevel::Off => log::LevelFilter::Off,
            LogLevel::Error => log::LevelFilter::Error,
            LogLevel::Warn => log::LevelFilter::Warn,
            LogLevel::Info => log::LevelFilter::Info,
            LogLevel::Debug => log::LevelFilter::Debug,
            LogLevel::Trace => log::LevelFilter::Trace,
        },
    )
}

/// `log::max_level`, as the level of the same name. What it returns
/// depends on global state and is not stated.
#[verifier::external_body]
fn current_max_log_level() -> LogLevel {
    match log::max_level() {
        log::LevelFilter::Off => LogLevel::Off,
        log::LevelFilter::Error => LogLevel::Error,
        log::LevelFilter::Warn => LogLevel::Warn,
        log::LevelFilter::Info => LogLevel::Info,
        log::LevelFilter::Debug => LogLevel::Debug,
        log::LevelFilter::Trace => LogLevel::Trace,
    }
}

/// Sets the global log level from a C code: 0 off, 1 error, 2 warn,
/// 3 info, 4 debug, anything else trace. Returns the level that was set.
pub fn pdf_oxide_set_log_level(level: i32) -> (r: LogLevel)
    ensures
        r == level_for_code(level),
{
    let l = log_level_from_code(level);
    set_max_log_level(l);
    l
}

/// The current global log level as a C code, 0 to 5.
pub fn pdf_oxide_get_log_level() -> (r: i32)
    ensures
        0 <= r <= 5,
{
    log_level_code(current_max_log_level())
}

/// Digest algorithms that a timestamp request can name.
#[derive(Debug, Clone, Copy, PartialEq, Eq, Structural)]
pub enum HashAlgorithm {
    /// SHA-1.
    Sha1,
    /// SHA-256.
    Sha256,
    /// SHA-384.
    Sha384,
    /// SHA-512.
    Sha512,
}

/// Reads a C digest code: 1 SHA-1, 2 SHA-256, 3 SHA-384, 4 SHA-512;
/// anything else SHA-256.
pub fn hash_algo_from_i32(code: i32) -> (r: HashAlgorithm)
    ensures
        r == (if code == 1 {
            HashAlgorithm::Sha1
        } else if code == 3 {
            HashAlgorithm::Sha384
        } else if code == 4 {
            HashAlgorithm::Sha512
        } else {
            HashAlgorithm::Sha256
        }),
{
    match code {
        1 => HashAlgorithm::Sha1,
        2 => HashAlgorithm::Sha256,
        3 => HashAlgorithm::Sha384,
        4 => HashAlgorithm::Sha512,
        _ => HashAlgorithm::Sha256,
    }
}

/// The standard rubber-stamp names, and custom ones.
#[derive(Debug, Clone, PartialEq, Eq)]
pub enum StampType {
    Approved,
    Experimental,
    NotApproved,
    AsIs,
    Expired,
    NotForPublicRelease,
    Confidential,
    Final,
    Sold,
    Departmental,
    ForComment,
    TopSecret,
    Draft,
    ForPublicRelease,
    /// Any other name.
    Custom(String),
}

/// The standard stamp names, in the order of [`StampType`].
pub open spec fn standard_stamp_names() -> Seq<Seq<char>> {
    seq![
        "Approved"@,
        "Experimental"@,
        "NotApproved"@,
        "AsIs"@,
        "Expired"@,
        "NotForPublicRelease"@,
        "Confidential"@,
        "Final"@,
        "Sold"@,
        "Departmental"@,
        "ForComment"@,
        "TopSecret"@,
        "Draft"@,
        "ForPublicRelease"@,
    ]
}

/// The name of a stamp type.
pub open spec fn stamp_name(t: StampType) -> Seq<char> {
    match t {
        StampType::Approved => standard_stamp_names()[0],
        StampType::Experimental => standard_stamp_names()[1],
        StampType::NotApproved => standard_stamp_names()[2],
        StampType::AsIs => standard_stamp_names()[3],
        StampType::Expired => standard_stamp_names()[4],
        StampType::NotForPublicRelease => standard_stamp_names()[5],
        StampType::Confidential => standard_stamp_names()[6],
        StampType::Final => standard_stamp_names()[7],
        StampType::Sold => standard_stamp_names()[8],
        StampType::Departmental => standard_stamp_names()[9],
        StampType::ForComment => standard_stamp_names()[10],
        StampType::TopSecret => standard_stamp_names()[11],
        StampType::Draft => standard_stamp_names()[12],
        StampType::ForPublicRelease => standard_stamp_names()[13],
        StampType::Custom(s) => s@,
    }
}

/// Parses a stamp-type name; an unknown name becomes a custom stamp of
/// that name.
pub fn ffi_parse_stamp_type(name: &str) -> (r: StampType)
    ensures
        stamp_name(r) == name@,
        standard_stamp_names().contains(name@) <==> !(r is Custom),
{
    let r = if str_eq(name, "Approved") {
        StampType::Approved
    } else if str_eq(name, "Experimental") {
        StampType::Experimental
    } else if str_eq(name, "NotApproved") {
        StampType::NotApproved
    } else if str_eq(name, "AsIs") {
        StampType::AsIs
    } else if str_eq(name, "Expired") {
        StampType::Expired
    } else if str_eq(name, "NotForPublicRelease") {
        StampType::NotForPublicRelease
    } else if str_eq(name, "Confidential") {
        StampType::Confidential
    } else if str_eq(name, "Final") {
        StampType::Final
    } else if str_eq(name, "Sold") {
        StampType::Sold
    } else if str_eq(name, "Departmental") {
        StampType::Departmental
    } else if str_eq(name, "ForComment") {
        StampType::ForComment
    } else if str_eq(name, "TopSecret") {
        StampType::TopSecret
    } else if str_eq(name, "Draft") {
        StampType::Draft
    } else if str_eq(name, "ForPublicRelease") {
        StampType::ForPublicRelease
    } else {
        StampType::Custom(name.to_owned())
    };
    r
}


/// What the interface reports of a font.
pub struct FontInfo {
    /// The font's name as used on the page.
    pub name: Seq<char>,
    /// The font subtype.
    pub subtype: Seq<char>,
    /// The font encoding.
    pub encoding: Seq<char>,
    /// Whether the font program is embedded.
    pub is_embedded: bool,
    /// Whether the font is a subset (`ABCDEF+Name`).
    pub is_subset: bool,
}

/// A font used on a page.
pub struct FfiFont {
    name: String,
    subtype: String,
    encoding: String,
    is_embedded: bool,
    is_subset: bool,
}

impl View for FfiFont {
    type V = FontInfo;

    closed spec fn view(&self) -> FontInfo {
        FontInfo {
            name: self.name@,
            subtype: self.subtype@,
            encoding: self.encoding@,
            is_embedded: self.is_embedded,
            is_subset: self.is_subset,
        }
    }
}

impl FfiFont {
    /// The font's name.
    pub fn name(&self) -> (r: &str)
        ensures
            r@ == self@.name,
    {
        self.name.as_str()
    }

    /// The font subtype.
    pub fn subtype(&self) -> (r: &str)
        ensures
            r@ == self@.subtype,
    {
        self.subtype.as_str()
    }

    /// The font encoding.
    pub fn encoding(&self) -> (r: &str)
        ensures
            r@ == self@.encoding,
    {
        self.encoding.as_str()
    }

    /// Whether the font program is embedded.
    pub fn is_embedded(&self) -> (r: bool)
        ensures
            r == self@.is_embedded,
    {
        self.is_embedded
    }

    /// Whether the font is a subset.
    pub fn is_subset(&self) -> (r: bool)
        ensures
            r == self@.is_subset,
    {
        self.is_subset
    }
}

/// The fonts used on a page.
pub struct FfiFontList {
    fonts: Vec<FfiFont>,
}

impl View for FfiFontList {
    type V = Seq<FontInfo>;

    closed spec fn view(&self) -> Seq<FontInfo> {
        Seq::new(self.fonts@.len(), |i: int| self.fonts@[i]@)
    }
}

/// A subset font's name starts with six tag letters and `+`: more than
/// seven bytes, the seventh being `+`.
pub open spec fn is_subset_name(name: Seq<char>) -> bool {
    encode_utf8(name).len() > 7 && encode_utf8(name)[6] == 0x2Bu8
}

/// Appends each non-empty name of `names` to `acc` unless it is already
/// there.
pub open spec fn add_font_names(acc: Seq<Seq<char>>, names: Seq<Seq<char>>) -> Seq<Seq<char>>
    decreases names.len(),
{
    if names.len() == 0 {
        acc
    } else {
        let next = if names[0].len() == 0 || acc.contains(names[0]) {
            acc
        } else {
            acc.push(names[0])
        };
        add_font_names(next, names.drop_first())
    }
}

/// What the interface reports of a font known only by name.
pub open spec fn font_info_for(name: Seq<char>) -> FontInfo {
    FontInfo {
        name,
        subtype: "Unknown"@,
        encoding: "Unknown"@,
        is_embedded: true,
        is_subset: is_subset_name(name),
    }
}

fn font_for_name(name: &str) -> (r: FfiFont)
    requires
        name@.len() > 0,
    ensures
        r@ == font_info_for(name@),
{
    let bytes = name.as_bytes_vec();
    let is_subset = bytes.len() > 7 && bytes[6] == 0x2Bu8;
    let is_embedded = str_contains(name, "+") || name.unicode_len() > 0;
    FfiFont {
        name: name.to_owned(),
        subtype: "Unknown".to_owned(),
        encoding: "Unknown".to_owned(),
        is_embedded,
        is_subset,
    }
}

fn holds_name(list: &Vec<FfiFont>, name: &str) -> (r: bool)
    ensures
        r == (exists|i: int| 0 <= i < list@.len() && #[trigger] list@[i]@.name == name@),
{
    let mut i: usize = 0;
    while i < list.len()
        invariant
            i <= list@.len(),
            forall|j: int| 0 <= j < i ==> #[trigger] list@[j]@.name != name@,
        decreases list.len() - i,
    {
        if str_eq(list[i].name(), name) {
            return true;
        }
        i = i + 1;
    }
    false
}

impl FfiFontList {
    /// The fonts named by the text spans of a page (`names`, in span
    /// order): each non-empty name once, in order of first use.
    pub fn from_span_font_names(names: &Vec<String>) -> (r: FfiFontList)
        ensures
            r@ == add_font_names(Seq::empty(), names.deep_view()).map_values(
                |n: Seq<char>| font_info_for(n),
            ),
    {
        let ghost all = names.deep_view();
        let mut fonts: Vec<FfiFont> = Vec::new();
        let mut i: usize = 0;
        assert(all.subrange(0, all.len() as int) =~= all);
        assert(fonts@.map_values(|f: FfiFont| f@.name) =~= Seq::<Seq<char>>::empty());
        while i < names.len()
            invariant
                all == names.deep_view(),
                i <= all.len(),
                add_font_names(
                    fonts@.map_values(|f: FfiFont| f@.name),
                    all.subrange(i as int, all.len() as int),
                ) == add_font_names(Seq::empty(), all),
                forall|j: int|
                    0 <= j < fonts@.len() ==> #[trigger] fonts@[j]@ == font_info_for(
                        fonts@[j]@.name,
                    ),
            decreases names.len() - i,
        {
            let ghost before = fonts@.map_values(|f: FfiFont| f@.name);
            let ghost rest = all.subrange(i as int, all.len() as int);
            assert(rest.drop_first() =~= all.subrange(i + 1, all.len() as int));
            assert(rest[0] == all[i as int]);
            let name = names[i].as_str();
            let seen = holds_name(&fonts, name);
            assert(seen == before.contains(name@)) by {
                if seen {
                    let k = choose|k: int| 0 <= k < fonts@.len() && #[trigger] fonts@[k]@.name
                        == name@;
                    assert(before[k] == name@);
                }
                if before.contains(name@) {
                    let k = choose|k: int| 0 <= k < before.len() && before[k] == name@;
                    assert(fonts@[k]@.name == name@);
                }
            }
            if name.unicode_len() > 0 && !seen {
                fonts.push(font_for_name(name));
                assert(fonts@.map_values(|f: FfiFont| f@.name) =~= before.push(name@));
            }
            i = i + 1;
        }
        assert(all.subrange(i as int, all.len() as int) =~= Seq::<Seq<char>>::empty());
        let r = FfiFontList { fonts };
        assert(r@ =~= add_font_names(Seq::empty(), all).map_values(
            |n: Seq<char>| font_info_for(n),
        ));
        r
    }

    /// The number of fonts, as the C interface reports it.
    pub fn count(&self) -> (r: i32)
        ensures
            r == self@.len() as i32,
    {
        self.fonts.len() as i32
    }

    /// The font at a C index: `ERR_INVALID_ARG` for a negative index,
    /// `ERR_INVALID_PAGE` for one past the end.
    pub fn font_at(&self, index: i32) -> (r: Result<&FfiFont, i32>)
        ensures
            index < 0 ==> r == Err::<&FfiFont, i32>(ERR_INVALID_ARG),
            index >= 0 && index >= self@.len() ==> r == Err::<&FfiFont, i32>(ERR_INVALID_PAGE),
            0 <= index < self@.len() ==> (r matches Ok(f) && f@ == self@[index as int]),
    {
        if index < 0 {
            return Err(ERR_INVALID_ARG);
        }
        let i = index as usize;
        if i >= self.fonts.len() {
            return Err(ERR_INVALID_PAGE);
        }
        Ok(&self.fonts[i])
    }
}


/// Where an outline entry leads.
pub enum Destination {
    /// A page, by zero-based index.
    PageIndex(usize),
    /// A named destination.
    Named(String),
}

/// An entry of the document outline (bookmarks).
pub struct OutlineItem {
    /// The entry's title.
    pub title: String,
    /// Where the entry leads, if anywhere.
    pub dest: Option<Destination>,
    /// Nested entries.
    pub children: Vec<OutlineItem>,
}

/// The JSON value of a destination: the page index, the quoted name, or
/// `null`.
pub open spec fn dest_json(d: Option<Destination>) -> Seq<char> {
    match d {
        Some(Destination::PageIndex(p)) => decimal(p as nat),
        Some(Destination::Named(n)) => quoted(n@),
        None => "null"@,
    }
}

/// The JSON objects of `items`, separated by commas.
pub open spec fn outline_items_json(items: Seq<OutlineItem>) -> Seq<char>
    decreases items,
{
    if items.len() == 0 {
        Seq::empty()
    } else if items.len() == 1 {
        outline_item_json(items[0])
    } else {
        outline_items_json(items.subrange(0, items.len() - 1)) + ","@ + outline_item_json(
            items[items.len() - 1],
        )
    }
}

/// The JSON object of an outline entry:
/// `{"title":"…","dest":…,"children":[…]}`.
pub open spec fn outline_item_json(item: OutlineItem) -> Seq<char>
    decreases item,
{
    "{\"title\":"@ + quoted(item.title@) + ",\"dest\":"@ + dest_json(item.dest) + ",\"children\":"@
        + (if item.children@.len() == 0 {
        "[]"@
    } else {
        "["@ + outline_items_json(item.children@) + "]"@
    }) + "}"@
}

/// The JSON array of an outline.
pub open spec fn outline_json(items: Seq<OutlineItem>) -> Seq<char> {
    "["@ + outline_items_json(items) + "]"@
}

fn push_outline_items(out: &mut String, items: &Vec<OutlineItem>)
    ensures
        final(out)@ == old(out)@ + outline_items_json(items@),
    decreases items@,
{
    let ghost start = out@;
    let mut i: usize = 0;
    assert(items@.subrange(0, 0) =~= Seq::<OutlineItem>::empty());
    while i < items.len()
        invariant
            i <= items@.len(),
            out@ == start + outline_items_json(items@.subrange(0, i as int)),
        decreases items.len() - i,
    {
        let item = &items[i];
        let ghost prefix = items@.subrange(0, i as int);
        let ghost next = items@.subrange(0, i + 1);
        assert(next.subrange(0, next.len() - 1) =~= prefix);
        assert(next[next.len() - 1] == item);
        if i > 0 {
            out.append(",");
        }
        let ghost before = out@;
        out.append("{\"title\":");
        push_quoted(out, item.title.as_str());
        out.append(",\"dest\":");
        match &item.dest {
            Some(Destination::PageIndex(p)) => push_decimal(out, *p as u64),
            Some(Destination::Named(n)) => push_quoted(out, n.as_str()),
            None => out.append("null"),
        }
        out.append(",\"children\":");
        if item.children.len() == 0 {
            out.append("[]");
        } else {
            out.append("[");
            assert(decreases_to!(items@ => items@[i as int]));
            push_outline_items(out, &item.children);
            out.append("]");
        }
        out.append("}");
        assert(out@ =~= before + outline_item_json(*item));
        assert(out@ =~= start + outline_items_json(next));
        i = i + 1;
    }
    assert(items@.subrange(0, items@.len() as int) =~= items@);
}

/// The document outline as JSON: an array of
/// `{"title":"…","dest":…,"children":[…]}` objects, where `dest` is a
/// page index, a destination name as a JSON string or `null`. Titles and
/// names are escaped as JSON requires.
pub fn outline_to_json(items: &Vec<OutlineItem>) -> (r: String)
    ensures
        r@ == outline_json(items@),
{
    let mut out = "[".to_owned();
    push_outline_items(&mut out, items);
    out.append("]");
    out
}


/// XMP metadata fields that the interface reports.
pub struct XmpMetadata {
    /// `dc:title`.
    pub dc_title: Option<String>,
    /// `dc:description`.
    pub dc_description: Option<String>,
    /// `dc:creator` entries.
    pub dc_creator: Vec<String>,
    /// `dc:subject` entries.
    pub dc_subject: Vec<String>,
    /// `xmp:CreatorTool`.
    pub xmp_creator_tool: Option<String>,
    /// `xmp:CreateDate`.
    pub xmp_create_date: Option<String>,
    /// `xmp:ModifyDate`.
    pub xmp_modify_date: Option<String>,
    /// `pdf:Producer`.
    pub pdf_producer: Option<String>,
}

/// The text of an optional field, empty when absent.
pub open spec fn opt_text(o: Option<String>) -> Seq<char> {
    match o {
        Some(s) => s@,
        None => Seq::empty(),
    }
}

/// The quoted strings of `items`, separated by commas.
pub open spec fn quoted_list(items: Seq<Seq<char>>) -> Seq<char>
    decreases items.len(),
{
    if items.len() == 0 {
        Seq::empty()
    } else if items.len() == 1 {
        quoted(items[0])
    } else {
        quoted_list(items.drop_last()) + ","@ + quoted(items.last())
    }
}

/// The JSON object of XMP metadata, `{}` when there is none.
pub open spec fn xmp_json(x: Option<XmpMetadata>) -> Seq<char> {
    match x {
        None => "{}"@,
        Some(m) => "{\"title\":"@ + quoted(opt_text(m.dc_title)) + ",\"description\":"@ + quoted(
            opt_text(m.dc_description),
        ) + ",\"creators\":["@ + quoted_list(m.dc_creator.deep_view()) + "],\"subjects\":["@
            + quoted_list(m.dc_subject.deep_view()) + "],\"creatorTool\":"@ + quoted(
            opt_text(m.xmp_creator_tool),
        ) + ",\"createDate\":"@ + quoted(opt_text(m.xmp_create_date)) + ",\"modifyDate\":"@
            + quoted(opt_text(m.xmp_modify_date)) + ",\"producer\":"@ + quoted(
            opt_text(m.pdf_producer),
        ) + "}"@,
    }
}

proof fn lemma_contains_middle(a: Seq<char>, b: Seq<char>, c: Seq<char>)
    ensures
        seq_contains(a + b + c, b),
{
    let h = a + b + c;
    assert(h.subrange(a.len() as int, (a.len() + b.len()) as int) =~= b);
    assert(occurs_at(h, b, a.len() as int));
}

proof fn lemma_contains_refl(a: Seq<char>)
    ensures
        seq_contains(a, a),
{
    assert(a.subrange(0, a.len() as int) =~= a);
    assert(occurs_at(a, a, 0));
}

proof fn lemma_contains_prefix(a: Seq<char>, b: Seq<char>)
    ensures
        seq_contains(a + b, a),
{
    assert((a + b).subrange(0, a.len() as int) =~= a);
    assert(occurs_at(a + b, a, 0));
}

proof fn lemma_contains_suffix(a: Seq<char>, b: Seq<char>)
    ensures
        seq_contains(a + b, b),
{
    assert((a + b).subrange(a.len() as int, (a.len() + b.len()) as int) =~= b);
    assert(occurs_at(a + b, b, a.len() as int));
}

proof fn lemma_contains_suffix3(a: Seq<char>, x: Seq<char>, y: Seq<char>, z: Seq<char>)
    ensures
        seq_contains(a + x + y + z, x + y + z),
{
    assert(a + x + y + z =~= a + (x + y + z));
    lemma_contains_suffix(a, x + y + z);
}

proof fn lemma_contains_trans(h: Seq<char>, m: Seq<char>, n: Seq<char>)
    requires
        seq_contains(h, m),
        seq_contains(m, n),
    ensures
        seq_contains(h, n),
{
    let i = choose|i: int| occurs_at(h, m, i);
    let j = choose|j: int| occurs_at(m, n, j);
    assert(h.subrange(i + j, i + j + n.len()) =~= m.subrange(j, j + n.len()));
    assert(occurs_at(h, n, i + j));
}

/// A JSON string list holds the JSON string of each of its items.
pub proof fn lemma_quoted_list_contains(items: Seq<Seq<char>>, k: int)
    requires
        0 <= k < items.len(),
    ensures
        seq_contains(quoted_list(items), quoted(items[k])),
    decreases items.len(),
{
    let q = quoted_list(items);
    if items.len() == 1 {
        lemma_contains_middle(Seq::empty(), q, Seq::empty());
        assert(Seq::<char>::empty() + q + Seq::<char>::empty() =~= q);
    } else {
        let init = quoted_list(items.drop_last());
        if k == items.len() - 1 {
            lemma_contains_middle(init + ","@, quoted(items.last()), Seq::empty());
            assert(init + ","@ + quoted(items.last()) + Seq::<char>::empty() =~= q);
        } else {
            lemma_quoted_list_contains(items.drop_last(), k);
            lemma_contains_middle(Seq::empty(), init, ","@ + quoted(items.last()));
            assert(Seq::<char>::empty() + init + (","@ + quoted(items.last())) =~= q);
            lemma_contains_trans(q, init, quoted(items[k]));
        }
    }
}

/// The XMP JSON carries each field of the metadata under its own key,
/// between that key and the next: the title, description, creator tool,
/// dates and producer as JSON strings of their text (empty when absent),
/// and the creators and subjects as JSON string lists of their entries,
/// in order; so every creator and every subject appears as a JSON string
/// of its own. (Each such string decodes back to its text:
/// `lemma_quoted_is_json_string`.)
pub proof fn lemma_xmp_json_fields(m: XmpMetadata)
    ensures
        ({
            let j = xmp_json(Some(m));
            let creators = m.dc_creator.deep_view();
            let subjects = m.dc_subject.deep_view();
            &&& seq_contains(j, "{\"title\":"@ + quoted(opt_text(m.dc_title)) + ",\"description\":"@)
            &&& seq_contains(
                j,
                ",\"description\":"@ + quoted(opt_text(m.dc_description)) + ",\"creators\":["@,
            )
            &&& seq_contains(j, ",\"creators\":["@ + quoted_list(creators) + "],\"subjects\":["@)
            &&& seq_contains(j, "],\"subjects\":["@ + quoted_list(subjects) + "],\"creatorTool\":"@)
            &&& seq_contains(
                j,
                "],\"creatorTool\":"@ + quoted(opt_text(m.xmp_creator_tool)) + ",\"createDate\":"@,
            )
            &&& seq_contains(
                j,
                ",\"createDate\":"@ + quoted(opt_text(m.xmp_create_date)) + ",\"modifyDate\":"@,
            )
            &&& seq_contains(
                j,
                ",\"modifyDate\":"@ + quoted(opt_text(m.xmp_modify_date)) + ",\"producer\":"@,
            )
            &&& seq_contains(j, ",\"producer\":"@ + quoted(opt_text(m.pdf_producer)) + "}"@)
            &&& forall|k: int| 0 <= k < subjects.len() ==> seq_contains(j, quoted(#[trigger] subjects[k]))
            &&& forall|k: int| 0 <= k < creators.len() ==> seq_contains(j, quoted(#[trigger] creators[k]))
        }),
{
    let j = xmp_json(Some(m));
    let creators = m.dc_creator.deep_view();
    let subjects = m.dc_subject.deep_view();
    let p1 = "{\"title\":"@;
    let p2 = p1 + quoted(opt_text(m.dc_title));
    let p3 = p2 + ",\"description\":"@;
    let p4 = p3 + quoted(opt_text(m.dc_description));
    let p5 = p4 + ",\"creators\":["@;
    let p6 = p5 + quoted_list(creators);
    let p7 = p6 + "],\"subjects\":["@;
    let p8 = p7 + quoted_list(subjects);
    let p9 = p8 + "],\"creatorTool\":"@;
    let p10 = p9 + quoted(opt_text(m.xmp_creator_tool));
    let p11 = p10 + ",\"createDate\":"@;
    let p12 = p11 + quoted(opt_text(m.xmp_create_date));
    let p13 = p12 + ",\"modifyDate\":"@;
    let p14 = p13 + quoted(opt_text(m.xmp_modify_date));
    let p15 = p14 + ",\"producer\":"@;
    let p16 = p15 + quoted(opt_text(m.pdf_producer));
    let p17 = p16 + "}"@;
    assert(j == p17);
    lemma_contains_refl(p17);
    lemma_contains_prefix(p16, "}"@);
    lemma_contains_trans(j, p17, p16);
    lemma_contains_prefix(p15, quoted(opt_text(m.pdf_producer)));
    lemma_contains_trans(j, p16, p15);
    lemma_contains_prefix(p14, ",\"producer\":"@);
    lemma_contains_trans(j, p15, p14);
    lemma_contains_prefix(p13, quoted(opt_text(m.xmp_modify_date)));
    lemma_contains_trans(j, p14, p13);
    lemma_contains_prefix(p12, ",\"modifyDate\":"@);
    lemma_contains_trans(j, p13, p12);
    lemma_contains_prefix(p11, quoted(opt_text(m.xmp_create_date)));
    lemma_contains_trans(j, p12, p11);
    lemma_contains_prefix(p10, ",\"createDate\":"@);
    lemma_contains_trans(j, p11, p10);
    lemma_contains_prefix(p9, quoted(opt_text(m.xmp_creator_tool)));
    lemma_contains_trans(j, p10, p9);
    lemma_contains_prefix(p8, "],\"creatorTool\":"@);
    lemma_contains_trans(j, p9, p8);
    lemma_contains_prefix(p7, quoted_list(subjects));
    lemma_contains_trans(j, p8, p7);
    lemma_contains_prefix(p6, "],\"subjects\":["@);
    lemma_contains_trans(j, p7, p6);
    lemma_contains_prefix(p5, quoted_list(creators));
    lemma_contains_trans(j, p6, p5);
    lemma_contains_prefix(p4, ",\"creators\":["@);
    lemma_contains_trans(j, p5, p4);
    lemma_contains_prefix(p3, quoted(opt_text(m.dc_description)));
    lemma_contains_trans(j, p4, p3);
    lemma_contains_suffix3(Seq::empty(), p1, quoted(opt_text(m.dc_title)), ",\"description\":"@);
    assert(Seq::<char>::empty() + p1 + quoted(opt_text(m.dc_title)) + ",\"description\":"@ =~= p3);
    lemma_contains_trans(j, p3, p1 + quoted(opt_text(m.dc_title)) + ",\"description\":"@);
    lemma_contains_suffix3(p2, ",\"description\":"@, quoted(opt_text(m.dc_description)), ",\"creators\":["@);
    lemma_contains_trans(j, p5, ",\"description\":"@ + quoted(opt_text(m.dc_description)) + ",\"creators\":["@);
    lemma_contains_suffix3(p4, ",\"creators\":["@, quoted_list(creators), "],\"subjects\":["@);
    lemma_contains_trans(j, p7, ",\"creators\":["@ + quoted_list(creators) + "],\"subjects\":["@);
    lemma_contains_suffix3(p6, "],\"subjects\":["@, quoted_list(subjects), "],\"creatorTool\":"@);
    lemma_contains_trans(j, p9, "],\"subjects\":["@ + quoted_list(subjects) + "],\"creatorTool\":"@);
    lemma_contains_suffix3(p8, "],\"creatorTool\":"@, quoted(opt_text(m.xmp_creator_tool)), ",\"createDate\":"@);
    lemma_contains_trans(j, p11, "],\"creatorTool\":"@ + quoted(opt_text(m.xmp_creator_tool)) + ",\"createDate\":"@);
    lemma_contains_suffix3(p10, ",\"createDate\":"@, quoted(opt_text(m.xmp_create_date)), ",\"modifyDate\":"@);
    lemma_contains_trans(j, p13, ",\"createDate\":"@ + quoted(opt_text(m.xmp_create_date)) + ",\"modifyDate\":"@);
    lemma_contains_suffix3(p12, ",\"modifyDate\":"@, quoted(opt_text(m.xmp_modify_date)), ",\"producer\":"@);
    lemma_contains_trans(j, p15, ",\"modifyDate\":"@ + quoted(opt_text(m.xmp_modify_date)) + ",\"producer\":"@);
    lemma_contains_suffix3(p14, ",\"producer\":"@, quoted(opt_text(m.pdf_producer)), "}"@);
    lemma_contains_trans(j, p17, ",\"producer\":"@ + quoted(opt_text(m.pdf_producer)) + "}"@);
    lemma_contains_prefix(p6, quoted_list(subjects));
    lemma_contains_suffix(p7, quoted_list(subjects));
    lemma_contains_trans(j, p8, quoted_list(subjects));
    lemma_contains_suffix(p5, quoted_list(creators));
    lemma_contains_trans(j, p6, quoted_list(creators));
    assert forall|k: int| 0 <= k < subjects.len() implies seq_contains(j, quoted(#[trigger] subjects[k])) by {
        lemma_quoted_list_contains(subjects, k);
        lemma_contains_trans(j, quoted_list(subjects), quoted(subjects[k]));
    }
    assert forall|k: int| 0 <= k < creators.len() implies seq_contains(j, quoted(#[trigger] creators[k])) by {
        lemma_quoted_list_contains(creators, k);
        lemma_contains_trans(j, quoted_list(creators), quoted(creators[k]));
    }
}

fn push_quoted_opt(out: &mut String, o: &Option<String>)
    ensures
        final(out)@ == old(out)@ + quoted(opt_text(*o)),
{
    match o {
        Some(s) => push_quoted(out, s.as_str()),
        None => {
            push_quoted(out, "");
            assert(""@ =~= Seq::<char>::empty()) by {
                reveal_strlit("");
            }
        },
    }
}

fn push_quoted_list(out: &mut String, items: &Vec<String>)
    ensures
        final(out)@ == old(out)@ + quoted_list(items.deep_view()),
{
    let ghost start = out@;
    let ghost all = items.deep_view();
    let mut i: usize = 0;
    assert(all.take(0) =~= Seq::<Seq<char>>::empty());
    while i < items.len()
        invariant
            all == items.deep_view(),
            i <= all.len(),
            out@ == start + quoted_list(all.take(i as int)),
        decreases items.len() - i,
    {
        assert(all.take(i + 1).drop_last() =~= all.take(i as int));
        if i > 0 {
            out.append(",");
        }
        push_quoted(out, items[i].as_str());
        assert(out@ =~= start + quoted_list(all.take(i + 1)));
        i = i + 1;
    }
    assert(all.take(all.len() as int) =~= all);
}

/// The XMP metadata as a JSON object with the fields `title`,
/// `description`, `creators` (array), `subjects` (array), `creatorTool`,
/// `createDate`, `modifyDate` and `producer`; absent fields are empty
/// strings, and `{}` stands for a document without XMP metadata.
pub fn xmp_metadata_json(x: &Option<XmpMetadata>) -> (r: String)
    ensures
        r@ == xmp_json(*x),
{
    match x {
        None => "{}".to_owned(),
        Some(m) => {
            let mut out = "{\"title\":".to_owned();
            push_quoted_opt(&mut out, &m.dc_title);
            out.append(",\"description\":");
            push_quoted_opt(&mut out, &m.dc_description);
            out.append(",\"creators\":[");
            push_quoted_list(&mut out, &m.dc_creator);
            out.append("],\"subjects\":[");
            push_quoted_list(&mut out, &m.dc_subject);
            out.append("],\"creatorTool\":");
            push_quoted_opt(&mut out, &m.xmp_creator_tool);
            out.append(",\"createDate\":");
            push_quoted_opt(&mut out, &m.xmp_create_date);
            out.append(",\"modifyDate\":");
            push_quoted_opt(&mut out, &m.xmp_modify_date);
            out.append(",\"producer\":");
            push_quoted_opt(&mut out, &m.pdf_producer);
            out.append("}");
            out
        },
    }
}

/// QR error-correction levels.
#[derive(Debug, Clone, Copy, PartialEq, Eq, Structural)]
pub enum QrErrorCorrection {
    /// About 7% recovery.
    Low,
    /// About 15% recovery.
    Medium,
    /// About 25% recovery.
    Quartile,
    /// About 30% recovery.
    High,
}

/// Reads a C error-correction code: 0 low, 1 medium, 2 quartile, 3 high;
/// anything else medium.
pub fn qr_error_correction(code: i32) -> (r: QrErrorCorrection)
    ensures
        r == (if code == 0 {
            QrErrorCorrection::Low
        } else if code == 2 {
            QrErrorCorrection::Quartile
        } else if code == 3 {
            QrErrorCorrection::High
        } else {
            QrErrorCorrection::Medium
        }),
{
    match code {
        0 => QrErrorCorrection::Low,
        1 => QrErrorCorrection::Medium,
        2 => QrErrorCorrection::Quartile,
        3 => QrErrorCorrection::High,
        _ => QrErrorCorrection::Medium,
    }
}

/// One-dimensional barcode symbologies.
#[derive(Debug, Clone, Copy, PartialEq, Eq, Structural)]
pub enum BarcodeType {
    Code128,
    Code39,
    Ean13,
    Ean8,
    UpcA,
    Itf,
}

/// Reads a C barcode format: 0 Code 128, 1 Code 39, 2 EAN-13, 3 EAN-8,
/// 4 UPC-A, 5 ITF; anything else Code 128.
pub fn barcode_type(format: i32) -> (r: BarcodeType)
    ensures
        r == (if format == 1 {
            BarcodeType::Code39
        } else if format == 2 {
            BarcodeType::Ean13
        } else if format == 3 {
            BarcodeType::Ean8
        } else if format == 4 {
            BarcodeType::UpcA
        } else if format == 5 {
            BarcodeType::Itf
        } else {
            BarcodeType::Code128
        }),
{
    match format {
        0 => BarcodeType::Code128,
        1 => BarcodeType::Code39,
        2 => BarcodeType::Ean13,
        3 => BarcodeType::Ean8,
        4 => BarcodeType::UpcA,
        5 => BarcodeType::Itf,
        _ => BarcodeType::Code128,
    }
}

/// The side of a QR code image for a requested size: at least one pixel.
pub fn qr_size(size_px: i32) -> (r: u32)
    ensures
        r as int == (if size_px < 1 {
            1
        } else {
            size_px as int
        }),
{
    if size_px < 1 {
        1
    } else {
        size_px as u32
    }
}

/// Width and height of a one-dimensional barcode image for a requested
/// size: the width is at least one pixel, the height a third of the width
/// but at least 30 pixels.
pub fn barcode_dimensions(size_px: i32) -> (r: (u32, u32))
    ensures
        r.0 as int == (if size_px < 1 {
            1
        } else {
            size_px as int
        }),
        r.1 as int == (if r.0 / 3 < 30 {
            30
        } else {
            r.0 / 3
        }),
{
    let w = qr_size(size_px);
    let h = if w / 3 < 30 {
        30
    } else {
        w / 3
    };
    (w, h)
}

/// A generated barcode image (PNG bytes).
pub struct FfiBarcodeImage {
    data: Vec<u8>,
    format: i32,
    source_data: String,
}

impl FfiBarcodeImage {
    /// The image of `source_data` in `format` (0 = QR, otherwise the
    /// one-dimensional format code), with PNG bytes `data`.
    pub fn new(data: Vec<u8>, format: i32, source_data: &str) -> (r: FfiBarcodeImage)
        ensures
            r.png_spec() == data@,
            r.format_spec() == format,
            r.source_spec() == source_data@,
    {
        FfiBarcodeImage { data, format, source_data: source_data.to_owned() }
    }

    /// The PNG bytes.
    pub closed spec fn png_spec(&self) -> Seq<u8> {
        self.data@
    }

    /// The format code.
    pub closed spec fn format_spec(&self) -> i32 {
        self.format
    }

    /// The encoded text.
    pub closed spec fn source_spec(&self) -> Seq<char> {
        self.source_data@
    }

    /// The PNG bytes.
    pub fn image_png(&self) -> (r: &[u8])
        ensures
            r@ == self.png_spec(),
    {
        self.data.as_slice()
    }

    /// The format code: 0 for QR, otherwise the one-dimensional format.
    pub fn format(&self) -> (r: i32)
        ensures
            r == self.format_spec(),
    {
        self.format
    }

    /// The encoded text.
    pub fn source_data(&self) -> (r: &str)
        ensures
            r@ == self.source_spec(),
    {
        self.source_data.as_str()
    }
}

/// The C answer to a signer check: `(1, ERR_SUCCESS)` for valid,
/// `(0, ERR_SUCCESS)` for invalid, `(-1, ERR_UNSUPPORTED)` when the check
/// could not run, `(-1, ERR_INVALID_ARG)` when the blob did not parse.
pub open spec fn verdict_code_spec(r: Result<SignerVerify, Error>) -> (i32, i32) {
    match r {
        Ok(SignerVerify::Valid) => (1i32, ERR_SUCCESS),
        Ok(SignerVerify::Invalid) => (0i32, ERR_SUCCESS),
        Ok(SignerVerify::Unknown) => (-1i32, ERR_UNSUPPORTED),
        Err(_) => (-1i32, ERR_INVALID_ARG),
    }
}

/// The C answer (result and error code) to a signer check.
pub fn verdict_code(r: &Result<SignerVerify, Error>) -> (c: (i32, i32))
    ensures
        c == verdict_code_spec(*r),
{
    match r {
        Ok(SignerVerify::Valid) => (1, ERR_SUCCESS),
        Ok(SignerVerify::Invalid) => (0, ERR_SUCCESS),
        Ok(SignerVerify::Unknown) => (-1, ERR_UNSUPPORTED),
        Err(_) => (-1, ERR_INVALID_ARG),
    }
}

/// The C answer to a signer check, over the verdict or error message
/// that the check is specified to give.
pub open spec fn verdict_code_of(r: Result<SignerVerify, Seq<char>>) -> (i32, i32) {
    match r {
        Ok(SignerVerify::Valid) => (1i32, ERR_SUCCESS),
        Ok(SignerVerify::Invalid) => (0i32, ERR_SUCCESS),
        Ok(SignerVerify::Unknown) => (-1i32, ERR_UNSUPPORTED),
        Err(_) => (-1i32, ERR_INVALID_ARG),
    }
}

/// Verifies the signer attributes of a signature's CMS `/Contents`: the
/// result code and the error code. A signature without contents gives
/// `(-1, ERR_UNSUPPORTED)`; otherwise the answer is that of
/// `verify_signer` on the contents.
pub fn pdf_signature_verify(contents: Option<&[u8]>) -> (c: (i32, i32))
    ensures
        contents is None ==> c == (-1i32, ERR_UNSUPPORTED),
        contents matches Some(b) ==> c == verdict_code_of(verify_signer_spec(b@)),
{
    match contents {
        None => (-1, ERR_UNSUPPORTED),
        Some(bytes) => {
            let r = verify_signer(bytes);
            verdict_code(&r)
        },
    }
}

/// Verifies a signature end to end against the signed bytes of the
/// document: the signer-attribute check and the `messageDigest` check.
/// `signed` is what extracting the signature's byte range from the file
/// gave. A signature without contents gives `(-1, ERR_UNSUPPORTED)`; a
/// byte range that is not four numbers, or one whose extraction failed,
/// gives `(-1, ERR_INVALID_ARG)`; otherwise the answer is that of
/// `verify_signer_detached` on the contents and the signed bytes.
pub fn pdf_signature_verify_detached(
    contents: Option<&[u8]>,
    byte_range_len: usize,
    signed: Result<Vec<u8>, Error>,
) -> (c: (i32, i32))
    ensures
        contents is None ==> c == (-1i32, ERR_UNSUPPORTED),
        contents is Some && (byte_range_len != 4 || signed is Err) ==> c == (-1i32, ERR_INVALID_ARG),
        contents matches Some(b) ==> (byte_range_len == 4 && signed is Ok ==> c == verdict_code_of(
            verify_detached_spec(b@, signed->Ok_0@),
        )),
{
    match contents {
        None => (-1, ERR_UNSUPPORTED),
        Some(bytes) => {
            if byte_range_len != 4 {
                return (-1, ERR_INVALID_ARG);
            }
            match signed {
                Err(_) => (-1, ERR_INVALID_ARG),
                Ok(data) => {
                    let r = verify_signer_detached(bytes, data.as_slice());
                    verdict_code(&r)
                },
            }
        },
    }
}

/// The owner password of an encrypted save: the one given, or the user
/// password when none was given (a NULL or non-UTF-8 argument).
pub fn owner_password_or_user<'a>(user: &'a str, owner: Option<&'a str>) -> (r: &'a str)
    ensures
        r@ == (match owner {
            Some(o) => o@,
            None => user@,
        }),
{
    match owner {
        Some(o) => o,
        None => user,
    }
}

/// A document builder behind a C handle: the builder until a terminal
/// call consumes it, and whether a page of it is open. Only one page may
/// be open at a time; while one is, every other call on the builder is
/// refused with `ERR_INVALID_ARG`, and so is every call after the builder
/// was consumed.
pub struct FfiDocumentBuilder<B> {
    inner: Option<B>,
    open_page: bool,
}

impl<B> FfiDocumentBuilder<B> {
    /// The builder, or `None` once a terminal call consumed it.
    pub closed spec fn builder(&self) -> Option<B> {
        self.inner
    }

    /// Whether a page of this builder is open.
    pub closed spec fn page_open(&self) -> bool {
        self.open_page
    }

    /// Wraps a fresh builder, with no page open.
    pub fn new(builder: B) -> (r: Self)
        ensures
            r.builder() == Some(builder),
            !r.page_open(),
    {
        FfiDocumentBuilder { inner: Some(builder), open_page: false }
    }

    /// Whether the builder can still be used: `ERR_INVALID_ARG` once it
    /// was consumed.
    pub fn check_usable(&self) -> (r: Result<(), i32>)
        ensures
            r == (if self.builder() is None {
                Err::<(), i32>(ERR_INVALID_ARG)
            } else {
                Ok::<(), i32>(())
            }),
    {
        if self.inner.is_none() {
            Err(ERR_INVALID_ARG)
        } else {
            Ok(())
        }
    }

    /// Applies a document-level setting `f` to the builder. Refused with
    /// `ERR_INVALID_ARG`, and nothing changes, when the builder was
    /// consumed or a page is open.
    pub fn apply<F: FnOnce(B) -> B>(&mut self, f: F) -> (r: Result<(), i32>)
        requires
            forall|b: B| call_requires(f, (b,)),
        ensures
            old(self).builder() is None || old(self).page_open() ==> r == Err::<(), i32>(
                ERR_INVALID_ARG,
            ) && *final(self) == *old(self),
            old(self).builder() is Some && !old(self).page_open() ==> r == Ok::<(), i32>(())
                && !final(self).page_open() && final(self).builder() is Some && call_ensures(
                f,
                (old(self).builder()->0,),
                final(self).builder()->0,
            ),
    {
        if self.inner.is_none() || self.open_page {
            return Err(ERR_INVALID_ARG);
        }
        match self.inner.take() {
            Some(b) => {
                self.inner = Some(f(b));
                Ok(())
            },
            None => Err(ERR_INVALID_ARG),
        }
    }

    /// Opens a page. Refused with `ERR_INVALID_ARG`, and nothing changes,
    /// when the builder was consumed or a page is already open.
    pub fn begin_page(&mut self) -> (r: Result<(), i32>)
        ensures
            old(self).builder() is None || old(self).page_open() ==> r == Err::<(), i32>(
                ERR_INVALID_ARG,
            ) && *final(self) == *old(self),
            old(self).builder() is Some && !old(self).page_open() ==> r == Ok::<(), i32>(())
                && final(self).page_open() && final(self).builder() == old(self).builder(),
    {
        if self.inner.is_none() || self.open_page {
            return Err(ERR_INVALID_ARG);
        }
        self.open_page = true;
        Ok(())
    }

    /// Commits the open page: `f` adds its content to the builder, and
    /// the page slot is freed. When the builder was consumed meanwhile,
    /// the slot is freed and `ERR_INVALID_ARG` returned.
    pub fn commit_page<F: FnOnce(B) -> B>(&mut self, f: F) -> (r: Result<(), i32>)
        requires
            forall|b: B| call_requires(f, (b,)),
        ensures
            !final(self).page_open(),
            old(self).builder() is None ==> r == Err::<(), i32>(ERR_INVALID_ARG)
                && final(self).builder() is None,
            old(self).builder() is Some ==> r == Ok::<(), i32>(()) && final(self).builder() is Some
                && call_ensures(f, (old(self).builder()->0,), final(self).builder()->0),
    {
        self.open_page = false;
        match self.inner.take() {
            Some(b) => {
                self.inner = Some(f(b));
                Ok(())
            },
            None => Err(ERR_INVALID_ARG),
        }
    }

    /// Drops the open page without committing it: the page slot is freed.
    pub fn discard_page(&mut self)
        ensures
            !final(self).page_open(),
            final(self).builder() == old(self).builder(),
    {
        self.open_page = false;
    }

    /// Takes the builder out for a terminal call (build or save). Refused
    /// with `ERR_INVALID_ARG`, and nothing changes, when the builder was
    /// already consumed or a page is open; afterwards every call is
    /// refused.
    pub fn consume(&mut self) -> (r: Result<B, i32>)
        ensures
            old(self).builder() is None || old(self).page_open() ==> r == Err::<B, i32>(
                ERR_INVALID_ARG,
            ) && *final(self) == *old(self),
            old(self).builder() is Some && !old(self).page_open() ==> r == Ok::<B, i32>(
                old(self).builder()->0,
            ) && final(self).builder() is None && !final(self).page_open(),
    {
        if self.inner.is_none() || self.open_page {
            return Err(ERR_INVALID_ARG);
        }
        match self.inner.take() {
            Some(b) => Ok(b),
            None => Err(ERR_INVALID_ARG),
        }
    }
}


/// Image formats of a rendered page.
#[derive(Debug, Clone, Copy, PartialEq, Eq, Structural)]
pub enum RenderImageFormat {
    Png,
    Jpeg,
}

/// The integer-valued render options of the C interface, checked.
#[derive(Debug, Clone, Copy, PartialEq, Eq, Structural)]
pub struct RenderSettings {
    /// Resolution in dots per inch.
    pub dpi: u32,
    /// Output format.
    pub format: RenderImageFormat,
    /// Whether the page is rendered without a background colour.
    pub transparent_background: bool,
    /// Whether annotations are drawn.
    pub render_annotations: bool,
    /// JPEG quality, 1 to 100.
    pub jpeg_quality: u8,
}

/// Checks and reads the render options of the C interface: a positive
/// `dpi` and a JPEG quality of 1 to 100 are required (else
/// `ERR_INVALID_ARG`); format 1 is JPEG and anything else PNG; non-zero
/// flags are true.
pub fn render_settings(
    dpi: i32,
    format: i32,
    transparent_background: i32,
    render_annotations: i32,
    jpeg_quality: i32,
) -> (r: Result<RenderSettings, i32>)
    ensures
        (dpi <= 0 || jpeg_quality < 1 || jpeg_quality > 100) ==> r == Err::<RenderSettings, i32>(
            ERR_INVALID_ARG,
        ),
        !(dpi <= 0 || jpeg_quality < 1 || jpeg_quality > 100) ==> r == Ok::<RenderSettings, i32>(
            RenderSettings {
                dpi: dpi as u32,
                format: if format == 1 {
                    RenderImageFormat::Jpeg
                } else {
                    RenderImageFormat::Png
                },
                transparent_background: transparent_background != 0,
                render_annotations: render_annotations != 0,
                jpeg_quality: jpeg_quality as u8,
            },
        ),
{
    if dpi <= 0 || jpeg_quality < 1 || jpeg_quality > 100 {
        return Err(ERR_INVALID_ARG);
    }
    let format = if format == 1 {
        RenderImageFormat::Jpeg
    } else {
        RenderImageFormat::Png
    };
    Ok(
        RenderSettings {
            dpi: dpi as u32,
            format,
            transparent_background: transparent_background != 0,
            render_annotations: render_annotations != 0,
            jpeg_quality: jpeg_quality as u8,
        },
    )
}


/// The timeout, in seconds, of a timestamp-authority request for a C
/// timeout argument: the argument when positive, otherwise 30 seconds.
pub fn tsa_timeout_secs(timeout: i32) -> (r: u64)
    ensures
        r == (if timeout > 0 {
            timeout as u64
        } else {
            30u64
        }),
{
    if timeout > 0 {
        timeout as u64
    } else {
        30
    }
}

} // verus!
