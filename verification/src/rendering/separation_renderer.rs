//! Separation plates: which inks a page uses, which colour component
//! carries the tint of a given ink, and the grayscale plate built from
//! the rasterised page.
//!
//! A plate is a grayscale image in which the intensity of a pixel is the
//! tint of one ink at that point (0 = no ink, 255 = full tint). The
//! rasterisation itself is done by `tiny-skia`; this module holds the
//! decisions around it.
use crate::error::Error;
use crate::object::Object;
use crate::text::str_eq;
use vstd::prelude::*;

verus! {

broadcast use vstd::string::group_string_axioms;

/// A rendered separation plate for a single ink.
#[derive(Debug, Clone)]
pub struct SeparationPlate {
    /// Ink name (e.g. "Cyan", "PANTONE 185 C", "Dieline").
    pub ink_name: String,
    /// Grayscale pixel data, row-major, top-left origin: 0 = no ink,
    /// 255 = full tint.
    pub data: Vec<u8>,
    /// Image width in pixels.
    pub width: u32,
    /// Image height in pixels.
    pub height: u32,
}

impl SeparationPlate {
    /// A plate holds one byte per pixel.
    pub open spec fn well_formed(&self) -> bool {
        self.data@.len() == self.width as int * self.height as int
    }
}

/// Builds the plate of `ink_name` from a rasterised RGBA page of
/// `width` x `height` pixels whose red channel carries the tint.
pub fn plate_from_rgba(ink_name: &str, rgba: &[u8], width: u32, height: u32) -> (r:
    SeparationPlate)
    requires
        width as int * height as int <= u32::MAX,
        rgba@.len() >= 4 * (width as int * height as int),
    ensures
        r.well_formed(),
        r.ink_name@ == ink_name@,
        r.width == width,
        r.height == height,
        forall|i: int| 0 <= i < r.data@.len() ==> r.data@[i] == rgba@[4 * i],
{
    let pixel_count: usize = (width * height) as usize;
    let n = rgba.len();
    let mut data: Vec<u8> = Vec::new();
    let mut i: usize = 0;
    while i < pixel_count
        invariant
            pixel_count == width as int * height as int,
            n == rgba@.len(),
            n >= 4 * pixel_count,
            i <= pixel_count,
            data@.len() == i,
            forall|j: int| 0 <= j < i ==> data@[j] == rgba@[4 * j],
        decreases pixel_count - i,
    {
        data.push(rgba[i * 4]);
        i = i + 1;
    }
    SeparationPlate { ink_name: ink_name.to_owned(), data, width, height }
}

/// The content-stream operators that bear on which inks a page uses.
pub enum ColorOp {
    /// `k`: a DeviceCMYK fill colour.
    SetFillCmyk,
    /// `K`: a DeviceCMYK stroke colour.
    SetStrokeCmyk,
    /// `cs`: the fill colour space, by name.
    SetFillColorSpace(String),
    /// `CS`: the stroke colour space, by name.
    SetStrokeColorSpace(String),
    /// Any other operator.
    Other,
}

/// Whether `op` puts DeviceCMYK content on the page.
pub open spec fn is_cmyk_op(op: ColorOp) -> bool {
    match op {
        ColorOp::SetFillCmyk | ColorOp::SetStrokeCmyk => true,
        ColorOp::SetFillColorSpace(n) | ColorOp::SetStrokeColorSpace(n) => n@ == "DeviceCMYK"@
            || n@ == "CMYK"@,
        ColorOp::Other => false,
    }
}

/// Whether a content stream references DeviceCMYK content: a CMYK colour
/// operator, or a colour space named `DeviceCMYK` or `CMYK`.
pub fn has_cmyk_content(ops: &[ColorOp]) -> (r: bool)
    ensures
        r == exists|i: int| 0 <= i < ops@.len() && is_cmyk_op(#[trigger] ops@[i]),
{
    let mut i: usize = 0;
    while i < ops.len()
        invariant
            i <= ops@.len(),
            forall|j: int| 0 <= j < i ==> !is_cmyk_op(#[trigger] ops@[j]),
        decreases ops.len() - i,
    {
        let hit = match &ops[i] {
            ColorOp::SetFillCmyk | ColorOp::SetStrokeCmyk => true,
            ColorOp::SetFillColorSpace(n) | ColorOp::SetStrokeColorSpace(n) => str_eq(
                n.as_str(),
                "DeviceCMYK",
            ) || str_eq(n.as_str(), "CMYK"),
            ColorOp::Other => false,
        };
        if hit {
            return true;
        }
        i = i + 1;
    }
    false
}

/// The four process inks, in plate order.
pub open spec fn process_inks() -> Seq<Seq<char>> {
    seq!["Cyan"@, "Magenta"@, "Yellow"@, "Black"@]
}

/// Appends each of `spots` to `acc` unless it is already there.
pub open spec fn add_inks(acc: Seq<Seq<char>>, spots: Seq<Seq<char>>) -> Seq<Seq<char>>
    decreases spots.len(),
{
    if spots.len() == 0 {
        acc
    } else {
        let next = if acc.contains(spots[0]) {
            acc
        } else {
            acc.push(spots[0])
        };
        add_inks(next, spots.drop_first())
    }
}

/// The inks of a page: the process inks when it has DeviceCMYK content,
/// then its spot inks, each once.
pub open spec fn page_inks(has_cmyk: bool, spots: Seq<Seq<char>>) -> Seq<Seq<char>> {
    add_inks(if has_cmyk { process_inks() } else { Seq::empty() }, spots)
}

/// The inks of a page with colour operators `ops` and spot inks `spots`.
pub open spec fn page_inks_of(ops: Seq<ColorOp>, spots: Seq<Seq<char>>) -> Seq<Seq<char>> {
    page_inks(exists|i: int| 0 <= i < ops.len() && is_cmyk_op(#[trigger] ops[i]), spots)
}

/// Whether `inks` holds `name`.
fn holds_ink(inks: &Vec<String>, name: &str) -> (r: bool)
    ensures
        r == inks.deep_view().contains(name@),
{
    let mut i: usize = 0;
    while i < inks.len()
        invariant
            i <= inks@.len(),
            forall|j: int| 0 <= j < i ==> inks.deep_view()[j] != name@,
        decreases inks.len() - i,
    {
        if str_eq(inks[i].as_str(), name) {
            assert(inks.deep_view()[i as int] == name@);
            return true;
        }
        i = i + 1;
    }
    false
}

/// Collects the inks of a page from its colour operators and the spot
/// inks named by its colour-space resources: the process inks first
/// when the page has DeviceCMYK content, then each spot ink once.
pub fn collect_page_inks(ops: &[ColorOp], spot_inks: &Vec<String>) -> (r: Vec<String>)
    ensures
        r.deep_view() == page_inks_of(ops@, spot_inks.deep_view()),
{
    let ghost spots = spot_inks.deep_view();
    let mut inks: Vec<String> = Vec::new();
    if has_cmyk_content(ops) {
        inks.push("Cyan".to_owned());
        inks.push("Magenta".to_owned());
        inks.push("Yellow".to_owned());
        inks.push("Black".to_owned());
        assert(inks.deep_view() =~= process_inks());
    } else {
        assert(inks.deep_view() =~= Seq::<Seq<char>>::empty());
    }
    let ghost init = inks.deep_view();
    let mut i: usize = 0;
    assert(spots.subrange(0, spots.len() as int) =~= spots);
    while i < spot_inks.len()
        invariant
            spots == spot_inks.deep_view(),
            i <= spots.len(),
            add_inks(inks.deep_view(), spots.subrange(i as int, spots.len() as int)) == add_inks(
                init,
                spots,
            ),
        decreases spot_inks.len() - i,
    {
        let ghost before = inks.deep_view();
        let ghost rest = spots.subrange(i as int, spots.len() as int);
        assert(rest.drop_first() =~= spots.subrange(i + 1, spots.len() as int));
        assert(rest[0] == spots[i as int]);
        if !holds_ink(&inks, spot_inks[i].as_str()) {
            inks.push(spot_inks[i].as_str().to_owned());
            assert(inks.deep_view() =~= before.push(spots[i as int]));
        }
        i = i + 1;
    }
    assert(spots.subrange(i as int, spots.len() as int) =~= Seq::<Seq<char>>::empty());
    inks
}


proof fn lemma_add_inks(acc: Seq<Seq<char>>, spots: Seq<Seq<char>>)
    ensures
        acc.no_duplicates() ==> add_inks(acc, spots).no_duplicates(),
        forall|x: Seq<char>| #[trigger]
            add_inks(acc, spots).contains(x) <==> (acc.contains(x) || spots.contains(x)),
        add_inks(acc, spots).len() >= acc.len(),
        add_inks(acc, spots).subrange(0, acc.len() as int) == acc,
    decreases spots.len(),
{
    if spots.len() == 0 {
        assert(acc.subrange(0, acc.len() as int) =~= acc);
    } else {
        let next = if acc.contains(spots[0]) {
            acc
        } else {
            acc.push(spots[0])
        };
        let rest = spots.drop_first();
        lemma_add_inks(next, rest);
        let r = add_inks(acc, spots);
        assert(r == add_inks(next, rest));
        if acc.no_duplicates() && !acc.contains(spots[0]) {
            assert forall|i: int, j: int|
                0 <= i < next.len() && 0 <= j < next.len() && i != j implies next[i]
                != next[j] by {
                if i == acc.len() as int {
                    assert(acc.contains(next[j]));
                } else if j == acc.len() as int {
                    assert(acc.contains(next[i]));
                }
            }
        }
        assert forall|x: Seq<char>| #[trigger]
            r.contains(x) <==> (acc.contains(x) || spots.contains(x)) by {
            if spots.contains(x) {
                let k = choose|k: int| 0 <= k < spots.len() && spots[k] == x;
                if k > 0 {
                    assert(rest[k - 1] == x);
                } else if !acc.contains(x) {
                    assert(next[acc.len() as int] == x);
                }
            }
            if rest.contains(x) {
                let k = choose|k: int| 0 <= k < rest.len() && rest[k] == x;
                assert(spots[k + 1] == x);
            }
            if next.contains(x) && !acc.contains(x) {
                assert(x == spots[0]);
                assert(spots.contains(x));
            }
            if acc.contains(x) {
                let k = choose|k: int| 0 <= k < acc.len() && acc[k] == x;
                assert(next[k] == x);
            }
        }
        assert(next.subrange(0, acc.len() as int) =~= acc);
        assert(r.subrange(0, acc.len() as int) =~= r.subrange(0, next.len() as int).subrange(
            0,
            acc.len() as int,
        ));
    }
}

/// The inks of a page are listed once each; they are exactly the process
/// inks (when the page has DeviceCMYK content) and the spot inks; and the
/// process inks come first, in the order Cyan, Magenta, Yellow, Black.
pub proof fn lemma_page_inks(has_cmyk: bool, spots: Seq<Seq<char>>)
    ensures
        page_inks(has_cmyk, spots).no_duplicates(),
        forall|x: Seq<char>| #[trigger]
            page_inks(has_cmyk, spots).contains(x) <==> ((has_cmyk && process_inks().contains(x))
                || spots.contains(x)),
        has_cmyk ==> page_inks(has_cmyk, spots).subrange(0, 4) == process_inks(),
{
    reveal_strlit("Cyan");
    reveal_strlit("Magenta");
    reveal_strlit("Yellow");
    reveal_strlit("Black");
    let init = if has_cmyk {
        process_inks()
    } else {
        Seq::<Seq<char>>::empty()
    };
    assert(init.no_duplicates()) by {
        if has_cmyk {
            assert forall|i: int, j: int|
                0 <= i < 4 && 0 <= j < 4 && i != j implies process_inks()[i]
                != process_inks()[j] by {
                assert(process_inks()[i][0] != process_inks()[j][0] || process_inks()[i].len()
                    != process_inks()[j].len());
            }
        }
    }
    lemma_add_inks(init, spots);
    assert forall|x: Seq<char>| #[trigger] init.contains(x) <==> (has_cmyk
        && process_inks().contains(x)) by {
        if !has_cmyk {
            assert(!init.contains(x));
        }
    }
}


/// Where the tint of the target ink is read from.
#[derive(Debug, Clone, Copy, PartialEq, Eq, Structural)]
pub enum TintSource {
    /// Channel `i` (0 = cyan, 1 = magenta, 2 = yellow, 3 = black) of the
    /// current DeviceCMYK colour.
    CmykChannel(u8),
    /// Component `i` of the current colour.
    Component(usize),
}

/// The channel of a process ink: 0 for Cyan, 1 Magenta, 2 Yellow,
/// 3 Black.
pub open spec fn process_channel(ink: Seq<char>) -> Option<int> {
    if ink == "Cyan"@ {
        Some(0)
    } else if ink == "Magenta"@ {
        Some(1)
    } else if ink == "Yellow"@ {
        Some(2)
    } else if ink == "Black"@ {
        Some(3)
    } else {
        None
    }
}

/// The colour space registered under `name`: the last entry with that
/// name, as a later resource entry replaces an earlier one.
pub open spec fn lookup_spec(entries: Seq<(String, Object)>, name: Seq<char>) -> Option<Object>
    decreases entries.len(),
{
    if entries.len() == 0 {
        None
    } else if entries.last().0@ == name {
        Some(entries.last().1)
    } else {
        lookup_spec(entries.drop_last(), name)
    }
}

/// The first index from `i` on whose entry of a DeviceN ink list is the
/// name `target`, when the colour has a component there.
pub open spec fn devicen_index_from(names: Seq<Object>, target: Seq<char>, n: nat, i: int) -> Option<
    int,
>
    decreases names.len() - i,
{
    if i < 0 || i >= names.len() {
        None
    } else if names[i] matches Object::Name(s) && s@ == target && i < n {
        Some(i)
    } else {
        devicen_index_from(names, target, n, i + 1)
    }
}

/// The name at index 1 of a colour-space array, or the empty name.
pub open spec fn second_name(arr: Seq<Object>) -> Seq<char> {
    if arr.len() > 1 {
        match arr[1] {
            Object::Name(s) => s@,
            _ => ""@,
        }
    } else {
        ""@
    }
}

/// The tint source for `target` in a resolved colour space `cs` (an array
/// `[/Separation name ...]`, `[/DeviceN [names] ...]` or
/// `[/ICCBased stream]`), for a colour with `n` components. A
/// four-component ICC colour is read as CMYK.
pub open spec fn resolved_tint_source(cs: Object, target: Seq<char>, n: nat) -> Option<TintSource> {
    match cs {
        Object::Array(arr) => if arr@.len() == 0 {
            None
        } else {
            match arr@[0] {
                Object::Name(t) => if t@ == "Separation"@ {
                    if second_name(arr@) == target && n > 0 {
                        Some(TintSource::Component(0))
                    } else {
                        None
                    }
                } else if t@ == "DeviceN"@ {
                    if arr@.len() > 1 {
                        match arr@[1] {
                            Object::Array(names) => match devicen_index_from(names@, target, n, 0) {
                                Some(i) => Some(TintSource::Component(i as usize)),
                                None => None,
                            },
                            _ => None,
                        }
                    } else {
                        None
                    }
                } else if t@ == "ICCBased"@ && arr@.len() > 1 && n >= 4 {
                    match process_channel(target) {
                        Some(c) => Some(TintSource::Component(c as usize)),
                        None => None,
                    }
                } else {
                    None
                },
                _ => None,
            }
        },
        _ => None,
    }
}

/// Where the tint of `target` comes from, for a colour in the space named
/// `space` (with a CMYK colour set or not, and `n` components), given the
/// page's colour-space resources. `None` when the colour does not
/// contribute to the ink.
pub open spec fn tint_source_spec(
    space: Seq<char>,
    cmyk_set: bool,
    color_spaces: Seq<(String, Object)>,
    target: Seq<char>,
    n: nat,
) -> Option<TintSource> {
    if space == "DeviceCMYK"@ || space == "CMYK"@ {
        if cmyk_set {
            match process_channel(target) {
                Some(c) => Some(TintSource::CmykChannel(c as u8)),
                None => None,
            }
        } else {
            None
        }
    } else if space == "DeviceRGB"@ || space == "RGB"@ || space == "DeviceGray"@ || space
        == "G"@ {
        None
    } else {
        match lookup_spec(color_spaces, space) {
            Some(cs) => resolved_tint_source(cs, target, n),
            None => None,
        }
    }
}

fn process_channel_of(ink: &str) -> (r: Option<u8>)
    ensures
        match process_channel(ink@) {
            Some(c) => r == Some(c as u8),
            None => r is None,
        },
{
    if str_eq(ink, "Cyan") {
        Some(0)
    } else if str_eq(ink, "Magenta") {
        Some(1)
    } else if str_eq(ink, "Yellow") {
        Some(2)
    } else if str_eq(ink, "Black") {
        Some(3)
    } else {
        None
    }
}

/// The colour space registered under `name` in `entries`.
pub fn lookup_color_space<'a>(entries: &'a Vec<(String, Object)>, name: &str) -> (r: Option<
    &'a Object,
>)
    ensures
        match r {
            Some(o) => lookup_spec(entries@, name@) == Some(*o),
            None => lookup_spec(entries@, name@) is None,
        },
{
    let mut i: usize = entries.len();
    assert(entries@.subrange(0, i as int) =~= entries@);
    while i > 0
        invariant
            i <= entries@.len(),
            lookup_spec(entries@, name@) == lookup_spec(entries@.subrange(0, i as int), name@),
        decreases i,
    {
        let ghost pre = entries@.subrange(0, i as int);
        assert(pre.drop_last() =~= entries@.subrange(0, i - 1));
        i = i - 1;
        if str_eq(entries[i].0.as_str(), name) {
            return Some(&entries[i].1);
        }
    }
    assert(entries@.subrange(0, 0) =~= Seq::<(String, Object)>::empty());
    None
}

fn devicen_index(names: &Vec<Object>, target: &str, n: usize) -> (r: Option<usize>)
    ensures
        match devicen_index_from(names@, target@, n as nat, 0) {
            Some(i) => r == Some(i as usize),
            None => r is None,
        },
{
    let mut i: usize = 0;
    while i < names.len()
        invariant
            i <= names@.len(),
            devicen_index_from(names@, target@, n as nat, 0) == devicen_index_from(
                names@,
                target@,
                n as nat,
                i as int,
            ),
        decreases names.len() - i,
    {
        if let Object::Name(ink) = &names[i] {
            if str_eq(ink.as_str(), target) && i < n {
                return Some(i);
            }
        }
        i = i + 1;
    }
    None
}

fn resolved_source(cs: &Object, target: &str, n: usize) -> (r: Option<TintSource>)
    ensures
        r == resolved_tint_source(*cs, target@, n as nat),
{
    let arr = match cs {
        Object::Array(a) => a,
        _ => {
            return None;
        },
    };
    if arr.len() == 0 {
        return None;
    }
    let family = match &arr[0] {
        Object::Name(t) => t,
        _ => {
            return None;
        },
    };
    if str_eq(family.as_str(), "Separation") {
        let sep: &str = if arr.len() > 1 {
            match &arr[1] {
                Object::Name(s) => s.as_str(),
                _ => "",
            }
        } else {
            ""
        };
        if str_eq(sep, target) && n > 0 {
            Some(TintSource::Component(0))
        } else {
            None
        }
    } else if str_eq(family.as_str(), "DeviceN") {
        if arr.len() > 1 {
            match &arr[1] {
                Object::Array(names) => match devicen_index(names, target, n) {
                    Some(i) => Some(TintSource::Component(i)),
                    None => None,
                },
                _ => None,
            }
        } else {
            None
        }
    } else if str_eq(family.as_str(), "ICCBased") && arr.len() > 1 && n >= 4 {
        match process_channel_of(target) {
            Some(c) => Some(TintSource::Component(c as usize)),
            None => None,
        }
    } else {
        None
    }
}

/// Decides where the tint of `target_ink` comes from for the current fill
/// or stroke colour: its colour space `space_name`, whether a CMYK colour
/// is set, the page's colour-space resources and the number of colour
/// components. Returns `None` when the colour does not contribute to the
/// ink (RGB and gray never do).
pub fn tint_for_ink(
    space_name: &str,
    cmyk_set: bool,
    color_spaces: &Vec<(String, Object)>,
    target_ink: &str,
    n_components: usize,
) -> (r: Option<TintSource>)
    ensures
        r == tint_source_spec(
            space_name@,
            cmyk_set,
            color_spaces@,
            target_ink@,
            n_components as nat,
        ),
{
    if str_eq(space_name, "DeviceCMYK") || str_eq(space_name, "CMYK") {
        if cmyk_set {
            match process_channel_of(target_ink) {
                Some(c) => Some(TintSource::CmykChannel(c)),
                None => None,
            }
        } else {
            None
        }
    } else if str_eq(space_name, "DeviceRGB") || str_eq(space_name, "RGB") || str_eq(
        space_name,
        "DeviceGray",
    ) || str_eq(space_name, "G") {
        None
    } else {
        match lookup_color_space(color_spaces, space_name) {
            Some(cs) => resolved_source(cs, target_ink, n_components),
            None => None,
        }
    }
}


/// Coverage of a pixel under two clip masks: the product of the two
/// coverages, scaled back to 0..=255.
pub open spec fn mask_mul(a: u8, b: u8) -> u8 {
    ((a as int * b as int) / 255) as u8
}

/// Intersecting two clip masks never lets more through than either of
/// them, is symmetric, and a fully open pixel (255) leaves the other
/// mask's coverage unchanged.
pub proof fn lemma_mask_mul(a: u8, b: u8)
    ensures
        mask_mul(a, b) <= a,
        mask_mul(a, b) <= b,
        mask_mul(a, b) == mask_mul(b, a),
        mask_mul(a, 255) == a,
        mask_mul(a, 0) == 0,
{
    assert(0 <= a as int * b as int <= a as int * 255) by (nonlinear_arith);
    assert(0 <= a as int * b as int <= 255 * b as int) by (nonlinear_arith);
    assert((a as int * b as int) / 255 <= a) by (nonlinear_arith)
        requires
            0 <= a as int * b as int <= a as int * 255,
    ;
    assert((a as int * b as int) / 255 <= b) by (nonlinear_arith)
        requires
            0 <= a as int * b as int <= 255 * b as int,
    ;
    assert(a as int * b as int == b as int * a as int) by (nonlinear_arith);
    assert((a as int * 255) / 255 == a) by (nonlinear_arith);
}

/// Intersects the clip mask `current` with `new`, pixel by pixel.
pub fn combine_clip_masks(current: &mut Vec<u8>, new: &[u8])
    requires
        new@.len() >= old(current)@.len(),
    ensures
        final(current)@.len() == old(current)@.len(),
        forall|i: int|
            0 <= i < old(current)@.len() ==> final(current)@[i] == mask_mul(
                old(current)@[i],
                new@[i],
            ),
{
    let mut i: usize = 0;
    while i < current.len()
        invariant
            new@.len() >= current@.len(),
            current@.len() == old(current)@.len(),
            i <= current@.len(),
            forall|j: int| 0 <= j < i ==> current@[j] == mask_mul(old(current)@[j], new@[j]),
            forall|j: int| i <= j < current@.len() ==> current@[j] == old(current)@[j],
        decreases current.len() - i,
    {
        let a = current[i];
        let b = new[i];
        assert(a as int * b as int <= 255 * 255) by (nonlinear_arith)
            requires
                a <= 255,
                b <= 255,
        ;
        let p: u32 = a as u32 * b as u32;
        proof {
            lemma_mask_mul(a, b);
        }
        assert(p / 255 <= 255);
        let v = (p / 255) as u8;
        current.set(i, v);
        i = i + 1;
    }
}

/// How the ends of stroked open subpaths are drawn.
#[derive(Debug, Clone, Copy, PartialEq, Eq, Structural)]
pub enum LineCapStyle {
    /// Square end at the endpoint.
    Butt,
    /// Semicircular end.
    Round,
    /// Square end extending half the line width past the endpoint.
    Square,
}

/// How stroked segments are joined.
#[derive(Debug, Clone, Copy, PartialEq, Eq, Structural)]
pub enum LineJoinStyle {
    /// Mitered join, up to the miter limit.
    Miter,
    /// Rounded join.
    Round,
    /// Bevelled join.
    Bevel,
}

/// The line cap of a PDF `J` operand: 1 round, 2 square, anything else
/// butt.
pub fn line_cap_style(code: i32) -> (r: LineCapStyle)
    ensures
        r == (if code == 1 {
            LineCapStyle::Round
        } else if code == 2 {
            LineCapStyle::Square
        } else {
            LineCapStyle::Butt
        }),
{
    match code {
        1 => LineCapStyle::Round,
        2 => LineCapStyle::Square,
        _ => LineCapStyle::Butt,
    }
}

/// The line join of a PDF `j` operand: 1 round, 2 bevel, anything else
/// miter.
pub fn line_join_style(code: i32) -> (r: LineJoinStyle)
    ensures
        r == (if code == 1 {
            LineJoinStyle::Round
        } else if code == 2 {
            LineJoinStyle::Bevel
        } else {
            LineJoinStyle::Miter
        }),
{
    match code {
        1 => LineJoinStyle::Round,
        2 => LineJoinStyle::Bevel,
        _ => LineJoinStyle::Miter,
    }
}

/// The blend mode named by an ExtGState `/BM` entry: a name, or the first
/// name of an array; `Normal` otherwise.
pub open spec fn blend_mode_spec(bm: Object) -> Seq<char> {
    match bm {
        Object::Name(n) => n@,
        Object::Array(arr) => if arr@.len() > 0 && arr@[0] is Name {
            arr@[0]->Name_0@
        } else {
            "Normal"@
        },
        _ => "Normal"@,
    }
}

/// Reads the blend mode of an ExtGState `/BM` entry.
pub fn blend_mode_name(bm: &Object) -> (r: String)
    ensures
        r@ == blend_mode_spec(*bm),
{
    match bm {
        Object::Name(n) => n.as_str().to_owned(),
        Object::Array(arr) => {
            if arr.len() > 0 {
                if let Object::Name(n) = &arr[0] {
                    return n.as_str().to_owned();
                }
            }
            "Normal".to_owned()
        },
        _ => "Normal".to_owned(),
    }
}


/// The colour state that separation rendering tracks for the fill and the
/// stroke colour: the colour space name, the CMYK colour when one is set,
/// and the colour components. `T` is the type of a colour component.
pub struct InkState<T> {
    /// Fill colour space name.
    pub fill_space: String,
    /// Stroke colour space name.
    pub stroke_space: String,
    /// Fill CMYK colour, when one is set.
    pub fill_cmyk: Option<(T, T, T, T)>,
    /// Stroke CMYK colour, when one is set.
    pub stroke_cmyk: Option<(T, T, T, T)>,
    /// Fill colour components.
    pub fill_components: Vec<T>,
    /// Stroke colour components.
    pub stroke_components: Vec<T>,
}

/// The mathematical value of an [`InkState`].
pub struct InkStateView<T> {
    pub fill_space: Seq<char>,
    pub stroke_space: Seq<char>,
    pub fill_cmyk: Option<(T, T, T, T)>,
    pub stroke_cmyk: Option<(T, T, T, T)>,
    pub fill_components: Seq<T>,
    pub stroke_components: Seq<T>,
}

impl<T> InkState<T> {
    /// The value of this state.
    pub open spec fn view_of(&self) -> InkStateView<T> {
        InkStateView {
            fill_space: self.fill_space@,
            stroke_space: self.stroke_space@,
            fill_cmyk: self.fill_cmyk,
            stroke_cmyk: self.stroke_cmyk,
            fill_components: self.fill_components@,
            stroke_components: self.stroke_components@,
        }
    }
}

/// The colour operators of a content stream, with their operands.
#[derive(Clone)]
pub enum SepColorOp<T> {
    /// `q`: save the graphics state.
    Save,
    /// `Q`: restore the graphics state.
    Restore,
    /// `rg`
    SetFillRgb(T, T, T),
    /// `RG`
    SetStrokeRgb(T, T, T),
    /// `g`
    SetFillGray(T),
    /// `G`
    SetStrokeGray(T),
    /// `k`
    SetFillCmyk(T, T, T, T),
    /// `K`
    SetStrokeCmyk(T, T, T, T),
    /// `cs`
    SetFillColorSpace(String),
    /// `CS`
    SetStrokeColorSpace(String),
    /// `sc` / `scn`
    SetFillColor(Vec<T>),
    /// `SC` / `SCN`
    SetStrokeColor(Vec<T>),
}

/// Whether a colour space name denotes DeviceCMYK.
pub open spec fn is_cmyk_space(space: Seq<char>) -> bool {
    space == "DeviceCMYK"@ || space == "CMYK"@
}

/// The CMYK colour that `sc`/`scn` with components `cs` sets in colour
/// space `space`: the first four components in a CMYK space, when there
/// are four; otherwise the CMYK colour stays as it was.
pub open spec fn cmyk_after_set_color<T>(
    space: Seq<char>,
    cs: Seq<T>,
    before: Option<(T, T, T, T)>,
) -> Option<(T, T, T, T)> {
    if is_cmyk_space(space) && cs.len() >= 4 {
        Some((cs[0], cs[1], cs[2], cs[3]))
    } else {
        before
    }
}

/// The state after a colour-setting operator (not `q` or `Q`).
pub open spec fn ink_step<T>(v: InkStateView<T>, op: SepColorOp<T>) -> InkStateView<T> {
    match op {
        SepColorOp::SetFillRgb(r, g, b) => InkStateView {
            fill_space: "DeviceRGB"@,
            fill_cmyk: None,
            fill_components: seq![r, g, b],
            ..v
        },
        SepColorOp::SetStrokeRgb(r, g, b) => InkStateView {
            stroke_space: "DeviceRGB"@,
            stroke_cmyk: None,
            stroke_components: seq![r, g, b],
            ..v
        },
        SepColorOp::SetFillGray(g) => InkStateView {
            fill_space: "DeviceGray"@,
            fill_cmyk: None,
            fill_components: seq![g],
            ..v
        },
        SepColorOp::SetStrokeGray(g) => InkStateView {
            stroke_space: "DeviceGray"@,
            stroke_cmyk: None,
            stroke_components: seq![g],
            ..v
        },
        SepColorOp::SetFillCmyk(c, m, y, k) => InkStateView {
            fill_space: "DeviceCMYK"@,
            fill_cmyk: Some((c, m, y, k)),
            fill_components: seq![c, m, y, k],
            ..v
        },
        SepColorOp::SetStrokeCmyk(c, m, y, k) => InkStateView {
            stroke_space: "DeviceCMYK"@,
            stroke_cmyk: Some((c, m, y, k)),
            stroke_components: seq![c, m, y, k],
            ..v
        },
        SepColorOp::SetFillColorSpace(n) => InkStateView { fill_space: n@, fill_cmyk: None, ..v },
        SepColorOp::SetStrokeColorSpace(n) => InkStateView {
            stroke_space: n@,
            stroke_cmyk: None,
            ..v
        },
        SepColorOp::SetFillColor(cs) => InkStateView {
            fill_cmyk: cmyk_after_set_color(v.fill_space, cs@, v.fill_cmyk),
            fill_components: cs@,
            ..v
        },
        SepColorOp::SetStrokeColor(cs) => InkStateView {
            stroke_cmyk: cmyk_after_set_color(v.stroke_space, cs@, v.stroke_cmyk),
            stroke_components: cs@,
            ..v
        },
        _ => v,
    }
}

/// The saved states after an operator: `q` saves a copy of the current
/// state, `Q` returns to the last saved one (the outermost state is never
/// removed), and the other operators change the current state.
pub open spec fn ink_stack_step<T>(st: Seq<InkStateView<T>>, op: SepColorOp<T>) -> Seq<
    InkStateView<T>,
> {
    match op {
        SepColorOp::Save => st.push(st.last()),
        SepColorOp::Restore => if st.len() > 1 {
            st.drop_last()
        } else {
            st
        },
        _ => st.drop_last().push(ink_step(st.last(), op)),
    }
}

/// The tint of `target` in colour state `v` (the fill colour when `fill`,
/// otherwise the stroke colour), given the page's colour spaces.
pub open spec fn ink_tint<T>(
    v: InkStateView<T>,
    fill: bool,
    color_spaces: Seq<(String, Object)>,
    target: Seq<char>,
) -> Option<T> {
    let space = if fill {
        v.fill_space
    } else {
        v.stroke_space
    };
    let cmyk = if fill {
        v.fill_cmyk
    } else {
        v.stroke_cmyk
    };
    let comps = if fill {
        v.fill_components
    } else {
        v.stroke_components
    };
    match tint_source_spec(space, cmyk is Some, color_spaces, target, comps.len()) {
        Some(TintSource::CmykChannel(c)) => match cmyk {
            Some(t) => Some(
                if c == 0 {
                    t.0
                } else if c == 1 {
                    t.1
                } else if c == 2 {
                    t.2
                } else {
                    t.3
                },
            ),
            None => None,
        },
        Some(TintSource::Component(i)) => Some(comps[i as int]),
        None => None,
    }
}

/// Channel `k` of a CMYK colour: 0 cyan, 1 magenta, 2 yellow, 3 black.
pub open spec fn cmyk_channel<T>(t: (T, T, T, T), k: int) -> T {
    if k == 0 {
        t.0
    } else if k == 1 {
        t.1
    } else if k == 2 {
        t.2
    } else {
        t.3
    }
}

/// In DeviceCMYK (or CMYK) with a CMYK colour set, each process ink reads
/// its own channel: the tint of `process_inks()[k]` (Cyan, Magenta,
/// Yellow, Black) comes from channel `k`, whatever the colour-space
/// resources and the number of components. So a colour state whose fill
/// (or stroke) is one CMYK value paints channel `k` of that value on
/// plate `k`.
pub proof fn lemma_process_inks_read_own_channel<T>(
    v: InkStateView<T>,
    color_spaces: Seq<(String, Object)>,
    n: nat,
    k: int,
)
    requires
        0 <= k < 4,
    ensures
        tint_source_spec("DeviceCMYK"@, true, color_spaces, process_inks()[k], n) == Some(
            TintSource::CmykChannel(k as u8),
        ),
        tint_source_spec("CMYK"@, true, color_spaces, process_inks()[k], n) == Some(
            TintSource::CmykChannel(k as u8),
        ),
        v.fill_space == "DeviceCMYK"@ && v.fill_cmyk is Some ==> ink_tint(
            v,
            true,
            color_spaces,
            process_inks()[k],
        ) == Some(cmyk_channel(v.fill_cmyk->0, k)),
        v.stroke_space == "DeviceCMYK"@ && v.stroke_cmyk is Some ==> ink_tint(
            v,
            false,
            color_spaces,
            process_inks()[k],
        ) == Some(cmyk_channel(v.stroke_cmyk->0, k)),
{
    reveal_strlit("Cyan");
    reveal_strlit("Magenta");
    reveal_strlit("Yellow");
    reveal_strlit("Black");
    assert("Cyan"@.len() == 4 && "Magenta"@.len() == 7 && "Yellow"@.len() == 6 && "Black"@.len() == 5);
    assert(process_channel(process_inks()[k]) == Some(k));
}

/// Tracks the colour state through a content stream for separation
/// rendering: a stack of saved states whose top is the current one.
pub struct InkTracker<T> {
    stack: Vec<InkState<T>>,
}

impl<T: Copy> InkTracker<T> {
    /// The saved states, the current one last.
    pub closed spec fn states(&self) -> Seq<InkStateView<T>> {
        Seq::new(self.stack@.len(), |i: int| self.stack@[i].view_of())
    }

    /// The tracker holds at least the current state.
    pub closed spec fn well_formed(&self) -> bool {
        self.stack@.len() > 0
    }

    /// The state at the start of a content stream: gray fill and stroke,
    /// no components.
    pub fn new() -> (r: Self)
        ensures
            r.well_formed(),
            r.states().len() == 1,
            r.states()[0].fill_space == "DeviceGray"@,
            r.states()[0].stroke_space == "DeviceGray"@,
            r.states()[0].fill_cmyk is None,
            r.states()[0].stroke_cmyk is None,
            r.states()[0].fill_components.len() == 0,
            r.states()[0].stroke_components.len() == 0,
    {
        let mut stack: Vec<InkState<T>> = Vec::new();
        stack.push(
            InkState {
                fill_space: "DeviceGray".to_owned(),
                stroke_space: "DeviceGray".to_owned(),
                fill_cmyk: None,
                stroke_cmyk: None,
                fill_components: Vec::new(),
                stroke_components: Vec::new(),
            },
        );
        let r = InkTracker { stack };
        assert(r.states()[0] == r.stack@[0].view_of());
        r
    }

    /// The number of states held: the current one and those saved.
    pub fn depth(&self) -> (r: usize)
        ensures
            r == self.states().len(),
    {
        self.stack.len()
    }

    /// The current state.
    pub fn current(&self) -> (r: &InkState<T>)
        requires
            self.well_formed(),
        ensures
            r.view_of() == self.states().last(),
    {
        let n = self.stack.len();
        &self.stack[n - 1]
    }

    /// Applies one colour operator.
    pub fn apply(&mut self, op: &SepColorOp<T>)
        requires
            old(self).well_formed(),
        ensures
            final(self).well_formed(),
            final(self).states() == ink_stack_step(old(self).states(), *op),
    {
        let ghost before = self.states();
        match op {
            SepColorOp::Save => {
                let n = self.stack.len();
                let copy = copy_state(&self.stack[n - 1]);
                self.stack.push(copy);
                assert(self.states() =~= before.push(before.last()));
            },
            SepColorOp::Restore => {
                if self.stack.len() > 1 {
                    self.stack.pop();
                    assert(self.states() =~= before.drop_last());
                } else {
                    assert(self.states() =~= before);
                }
            },
            _ => {
                let mut top = self.stack.pop().unwrap();
                let ghost v = top.view_of();
                assert(v == before.last());
                step_state(&mut top, op);
                self.stack.push(top);
                assert(self.states() =~= before.drop_last().push(ink_step(v, *op)));
            },
        }
    }

    /// The tint of `target` in the current fill (or stroke) colour, given
    /// the page's colour spaces; `None` when that colour does not carry
    /// the ink.
    pub fn tint(&self, fill: bool, color_spaces: &Vec<(String, Object)>, target: &str) -> (r:
        Option<T>)
        requires
            self.well_formed(),
        ensures
            r == ink_tint(self.states().last(), fill, color_spaces@, target@),
    {
        let top = self.current();
        let (space, cmyk, comps) = if fill {
            (&top.fill_space, &top.fill_cmyk, &top.fill_components)
        } else {
            (&top.stroke_space, &top.stroke_cmyk, &top.stroke_components)
        };
        let src = tint_for_ink(space.as_str(), cmyk.is_some(), color_spaces, target, comps.len());
        proof {
            lemma_tint_source_in_range(
                space@,
                cmyk is Some,
                color_spaces@,
                target@,
                comps@.len(),
            );
        }
        match src {
            Some(TintSource::CmykChannel(c)) => match cmyk {
                Some(t) => Some(
                    if c == 0 {
                        t.0
                    } else if c == 1 {
                        t.1
                    } else if c == 2 {
                        t.2
                    } else {
                        t.3
                    },
                ),
                None => None,
            },
            Some(TintSource::Component(i)) => Some(comps[i]),
            None => None,
        }
    }
}

fn copy_components<T: Copy>(v: &Vec<T>) -> (r: Vec<T>)
    ensures
        r@ == v@,
{
    let mut out: Vec<T> = Vec::new();
    let mut i: usize = 0;
    while i < v.len()
        invariant
            i <= v@.len(),
            out@ == v@.take(i as int),
        decreases v.len() - i,
    {
        out.push(v[i]);
        assert(v@.take(i + 1) =~= v@.take(i as int).push(v@[i as int]));
        i = i + 1;
    }
    assert(v@.take(v@.len() as int) =~= v@);
    out
}

fn copy_state<T: Copy>(s: &InkState<T>) -> (r: InkState<T>)
    ensures
        r.view_of() == s.view_of(),
{
    InkState {
        fill_space: s.fill_space.clone(),
        stroke_space: s.stroke_space.clone(),
        fill_cmyk: s.fill_cmyk,
        stroke_cmyk: s.stroke_cmyk,
        fill_components: copy_components(&s.fill_components),
        stroke_components: copy_components(&s.stroke_components),
    }
}

fn cmyk_of<T: Copy>(space: &str, cs: &Vec<T>, before: Option<(T, T, T, T)>) -> (r: Option<
    (T, T, T, T),
>)
    ensures
        r == cmyk_after_set_color(space@, cs@, before),
{
    if (str_eq(space, "DeviceCMYK") || str_eq(space, "CMYK")) && cs.len() >= 4 {
        Some((cs[0], cs[1], cs[2], cs[3]))
    } else {
        before
    }
}

fn step_state<T: Copy>(s: &mut InkState<T>, op: &SepColorOp<T>)
    ensures
        final(s).view_of() == ink_step(old(s).view_of(), *op),
{
    match op {
        SepColorOp::SetFillRgb(r, g, b) => {
            s.fill_space = "DeviceRGB".to_owned();
            s.fill_cmyk = None;
            s.fill_components = vec![*r, *g, *b];
        },
        SepColorOp::SetStrokeRgb(r, g, b) => {
            s.stroke_space = "DeviceRGB".to_owned();
            s.stroke_cmyk = None;
            s.stroke_components = vec![*r, *g, *b];
        },
        SepColorOp::SetFillGray(g) => {
            s.fill_space = "DeviceGray".to_owned();
            s.fill_cmyk = None;
            s.fill_components = vec![*g];
        },
        SepColorOp::SetStrokeGray(g) => {
            s.stroke_space = "DeviceGray".to_owned();
            s.stroke_cmyk = None;
            s.stroke_components = vec![*g];
        },
        SepColorOp::SetFillCmyk(c, m, y, k) => {
            s.fill_cmyk = Some((*c, *m, *y, *k));
            s.fill_space = "DeviceCMYK".to_owned();
            s.fill_components = vec![*c, *m, *y, *k];
        },
        SepColorOp::SetStrokeCmyk(c, m, y, k) => {
            s.stroke_cmyk = Some((*c, *m, *y, *k));
            s.stroke_space = "DeviceCMYK".to_owned();
            s.stroke_components = vec![*c, *m, *y, *k];
        },
        SepColorOp::SetFillColorSpace(n) => {
            s.fill_space = n.clone();
            s.fill_cmyk = None;
        },
        SepColorOp::SetStrokeColorSpace(n) => {
            s.stroke_space = n.clone();
            s.stroke_cmyk = None;
        },
        SepColorOp::SetFillColor(cs) => {
            s.fill_cmyk = cmyk_of(s.fill_space.as_str(), cs, s.fill_cmyk);
            s.fill_components = copy_components(cs);
        },
        SepColorOp::SetStrokeColor(cs) => {
            s.stroke_cmyk = cmyk_of(s.stroke_space.as_str(), cs, s.stroke_cmyk);
            s.stroke_components = copy_components(cs);
        },
        SepColorOp::Save | SepColorOp::Restore => {},
    }
    proof {
        let v = ink_step(old(s).view_of(), *op);
        assert(s.view_of().fill_components =~= v.fill_components);
        assert(s.view_of().stroke_components =~= v.stroke_components);
    }
}

proof fn lemma_devicen_index_in_range(names: Seq<Object>, target: Seq<char>, n: nat, i: int)
    ensures
        devicen_index_from(names, target, n, i) matches Some(j) ==> 0 <= j < n,
    decreases names.len() - i,
{
    if i < 0 || i >= names.len() {
    } else if names[i] matches Object::Name(s) && s@ == target && i < n {
    } else {
        lemma_devicen_index_in_range(names, target, n, i + 1);
    }
}

/// A tint source names an existing component, and a CMYK channel only
/// when a CMYK colour is set.
pub proof fn lemma_tint_source_in_range(
    space: Seq<char>,
    cmyk_set: bool,
    color_spaces: Seq<(String, Object)>,
    target: Seq<char>,
    n: nat,
)
    ensures
        tint_source_spec(space, cmyk_set, color_spaces, target, n) matches Some(
            TintSource::Component(i),
        ) ==> i < n,
        tint_source_spec(space, cmyk_set, color_spaces, target, n) matches Some(
            TintSource::CmykChannel(c),
        ) ==> cmyk_set && c <= 3,
{
    match lookup_spec(color_spaces, space) {
        Some(cs) => {
            if let Object::Array(arr) = cs {
                if arr@.len() > 1 {
                    if let Object::Array(names) = arr@[1] {
                        lemma_devicen_index_in_range(names@, target, n, 0);
                    }
                }
            }
        },
        None => {},
    }
}

/// Saving the colour state and restoring it gives back the states as they
/// were; restoring never removes the outermost state.
pub proof fn lemma_save_restore<T>(st: Seq<InkStateView<T>>)
    requires
        st.len() > 0,
    ensures
        ink_stack_step(ink_stack_step(st, SepColorOp::Save), SepColorOp::Restore) == st,
        ink_stack_step(st, SepColorOp::Restore).len() > 0,
        st.len() == 1 ==> ink_stack_step(st, SepColorOp::Restore) == st,
{
    assert(st.push(st.last()).drop_last() =~= st);
}


/// An operator of a content stream as separation rendering sees it. The
/// geometry (path construction, `cm`, line style, `gs`) is the caller's
/// to apply; what decides what reaches the plate is here.
pub enum SepPaintOp<T> {
    /// A colour operator, `q` or `Q`.
    Color(SepColorOp<T>),
    /// Path construction, `cm`, a line style operator or `gs`.
    Geometry,
    /// A painting operator: `fill` is `Some(true)` for the even-odd rule,
    /// `Some(false)` for the nonzero rule and `None` for no fill; `stroke`
    /// whether the path is stroked; `path_nonempty` whether the current
    /// path has any segment.
    Paint { fill: Option<bool>, stroke: bool, path_nonempty: bool },
    /// `n`: end the path without painting it.
    EndPath,
    /// `W` (`even_odd` false) or `W*` (true), with whether the current
    /// path has any segment.
    Clip { even_odd: bool, path_nonempty: bool },
    /// `Do`, naming a Form XObject or another kind of XObject.
    Do { is_form: bool },
    /// Text and every other operator, which a plate ignores.
    Other,
}

/// What the caller does for one operator.
#[derive(Debug, PartialEq, Eq)]
pub enum SepAction<T> {
    /// Nothing.
    Nothing,
    /// Apply the operator to the current path or graphics state.
    Geometry,
    /// Save the graphics state and push a copy of the current clip.
    Save,
    /// Restore the graphics state, and pop the clip stack when `pop`.
    Restore { pop: bool },
    /// Keep a copy of the current path as the pending clip, with the
    /// even-odd rule when `even_odd`.
    RememberClip { even_odd: bool },
    /// First intersect the current clip with the pending clip when `clip`
    /// is `Some` (`Some(true)`: even-odd rule); then fill the current path
    /// with tint `t` when `fill` is `Some((t, even_odd))`, then stroke it
    /// with tint `t` when `stroke` is `Some(t)`; then start a new path.
    Paint { clip: Option<bool>, fill: Option<(T, bool)>, stroke: Option<T> },
    /// Run the Form XObject's content stream from a fresh state, with the
    /// form's colour spaces merged over the current ones.
    RunForm,
}

/// The mathematical value of a [`SeparationState`]: the colour states
/// (the current one last) and the rule of the pending clip, if any.
pub struct SeparationView<T> {
    pub inks: Seq<InkStateView<T>>,
    pub pending_clip: Option<bool>,
}

/// The state of separation rendering within one content stream.
pub struct SeparationState<T> {
    inks: InkTracker<T>,
    pending_clip: Option<bool>,
}

/// The state at the start of a content stream: one gray colour state with
/// no components, and no pending clip.
pub open spec fn sep_start<T>() -> SeparationView<T> {
    SeparationView {
        inks: seq![
            InkStateView {
                fill_space: "DeviceGray"@,
                stroke_space: "DeviceGray"@,
                fill_cmyk: None,
                stroke_cmyk: None,
                fill_components: Seq::empty(),
                stroke_components: Seq::empty(),
            },
        ],
        pending_clip: None,
    }
}

/// The fill of a painting operator: the fill tint of the target ink and
/// the rule, when the operator fills a non-empty path whose fill colour
/// carries the ink.
pub open spec fn fill_paint<T>(
    v: SeparationView<T>,
    rule: Option<bool>,
    path_nonempty: bool,
    color_spaces: Seq<(String, Object)>,
    target: Seq<char>,
) -> Option<(T, bool)> {
    match rule {
        Some(even_odd) => if path_nonempty {
            match ink_tint(v.inks.last(), true, color_spaces, target) {
                Some(t) => Some((t, even_odd)),
                None => None,
            }
        } else {
            None
        },
        None => None,
    }
}

/// The stroke of a painting operator: the stroke tint of the target ink,
/// when the operator strokes a non-empty path whose stroke colour carries
/// the ink.
pub open spec fn stroke_paint<T>(
    v: SeparationView<T>,
    stroke: bool,
    path_nonempty: bool,
    color_spaces: Seq<(String, Object)>,
    target: Seq<char>,
) -> Option<T> {
    if stroke && path_nonempty {
        ink_tint(v.inks.last(), false, color_spaces, target)
    } else {
        None
    }
}

/// The state after an operator, and what the caller does for it.
pub open spec fn sep_step_spec<T>(
    v: SeparationView<T>,
    op: SepPaintOp<T>,
    color_spaces: Seq<(String, Object)>,
    target: Seq<char>,
) -> (SeparationView<T>, SepAction<T>) {
    match op {
        SepPaintOp::Color(c) => (
            SeparationView { inks: ink_stack_step(v.inks, c), pending_clip: v.pending_clip },
            match c {
                SepColorOp::Save => SepAction::Save,
                SepColorOp::Restore => SepAction::Restore { pop: v.inks.len() > 1 },
                _ => SepAction::Nothing,
            },
        ),
        SepPaintOp::Geometry => (v, SepAction::Geometry),
        SepPaintOp::Paint { fill, stroke, path_nonempty } => (
            SeparationView { inks: v.inks, pending_clip: None },
            SepAction::Paint {
                clip: v.pending_clip,
                fill: fill_paint(v, fill, path_nonempty, color_spaces, target),
                stroke: stroke_paint(v, stroke, path_nonempty, color_spaces, target),
            },
        ),
        SepPaintOp::EndPath => (
            SeparationView { inks: v.inks, pending_clip: None },
            SepAction::Paint { clip: v.pending_clip, fill: None, stroke: None },
        ),
        SepPaintOp::Clip { even_odd, path_nonempty } => if path_nonempty {
            (
                SeparationView { inks: v.inks, pending_clip: Some(even_odd) },
                SepAction::RememberClip { even_odd },
            )
        } else {
            (v, SepAction::Nothing)
        },
        SepPaintOp::Do { is_form } => (
            v,
            if is_form {
                SepAction::RunForm
            } else {
                SepAction::Nothing
            },
        ),
        SepPaintOp::Other => (v, SepAction::Nothing),
    }
}

impl<T: Copy> View for SeparationState<T> {
    type V = SeparationView<T>;

    closed spec fn view(&self) -> SeparationView<T> {
        SeparationView { inks: self.inks.states(), pending_clip: self.pending_clip }
    }
}

impl<T: Copy> SeparationState<T> {
    /// The state holds at least the current colour state.
    pub closed spec fn well_formed(&self) -> bool {
        self.inks.well_formed() && self.inks.states().len() > 0
    }

    /// The state at the start of a content stream.
    pub fn new() -> (r: Self)
        ensures
            r.well_formed(),
            r@ == sep_start::<T>(),
    {
        let inks = InkTracker::new();
        let r = SeparationState { inks, pending_clip: None };
        let ghost first = r.inks.states()[0];
        assert(first.fill_components =~= Seq::<T>::empty());
        assert(first.stroke_components =~= Seq::<T>::empty());
        assert(first == sep_start::<T>().inks[0]);
        assert(r@.inks =~= sep_start::<T>().inks);
        r
    }

    /// The rule of the pending clip, if a clip is pending.
    pub fn pending_clip(&self) -> (r: Option<bool>)
        ensures
            r == self@.pending_clip,
    {
        self.pending_clip
    }
}

/// One step of separation rendering: the state after `op` and what the
/// caller does for it. Only painting operators whose colour carries the
/// target ink paint; a clip set by `W`/`W*` is applied at the next
/// painting operator or `n`; `q` and `Q` save and restore the colour
/// state and the clip; only a Form XObject is run.
pub fn separation_step<T: Copy>(
    st: &mut SeparationState<T>,
    op: &SepPaintOp<T>,
    color_spaces: &Vec<(String, Object)>,
    target: &str,
) -> (a: SepAction<T>)
    requires
        old(st).well_formed(),
    ensures
        final(st).well_formed(),
        (final(st)@, a) == sep_step_spec(old(st)@, *op, color_spaces@, target@),
{
    match op {
        SepPaintOp::Color(c) => {
            let deep = st.inks.depth() > 1;
            st.inks.apply(c);
            proof {
                lemma_save_restore(old(st)@.inks);
            }
            match c {
                SepColorOp::Save => SepAction::Save,
                SepColorOp::Restore => SepAction::Restore { pop: deep },
                _ => SepAction::Nothing,
            }
        },
        SepPaintOp::Geometry => SepAction::Geometry,
        SepPaintOp::Paint { fill, stroke, path_nonempty } => {
            let clip = st.pending_clip;
            let f = match fill {
                Some(even_odd) => if *path_nonempty {
                    match st.inks.tint(true, color_spaces, target) {
                        Some(t) => Some((t, *even_odd)),
                        None => None,
                    }
                } else {
                    None
                },
                None => None,
            };
            let s = if *stroke && *path_nonempty {
                st.inks.tint(false, color_spaces, target)
            } else {
                None
            };
            st.pending_clip = None;
            SepAction::Paint { clip, fill: f, stroke: s }
        },
        SepPaintOp::EndPath => {
            let clip = st.pending_clip;
            st.pending_clip = None;
            SepAction::Paint { clip, fill: None, stroke: None }
        },
        SepPaintOp::Clip { even_odd, path_nonempty } => {
            if *path_nonempty {
                st.pending_clip = Some(*even_odd);
                SepAction::RememberClip { even_odd: *even_odd }
            } else {
                SepAction::Nothing
            }
        },
        SepPaintOp::Do { is_form } => {
            if *is_form {
                SepAction::RunForm
            } else {
                SepAction::Nothing
            }
        },
        SepPaintOp::Other => SepAction::Nothing,
    }
}

/// Whether an action paints anything: a fill or a stroke.
pub open spec fn paints<T>(a: SepAction<T>) -> bool {
    a matches SepAction::Paint { fill, stroke, .. } && (fill is Some || stroke is Some)
}

/// Only the operations that contribute to the target ink are painted: a
/// step paints a fill only with the fill tint of the target ink in the
/// current colour, and a stroke only with its stroke tint.
pub proof fn lemma_paint_carries_ink_tint<T>(
    v: SeparationView<T>,
    op: SepPaintOp<T>,
    color_spaces: Seq<(String, Object)>,
    target: Seq<char>,
)
    ensures
        sep_step_spec(v, op, color_spaces, target).1 matches SepAction::Paint { fill, stroke, .. } ==> (
        fill matches Some((t, _)) ==> ink_tint(v.inks.last(), true, color_spaces, target) == Some(
            t,
        )) && (stroke matches Some(t) ==> ink_tint(v.inks.last(), false, color_spaces, target)
            == Some(t)),
{
}

/// If the ink is not present, the plate is all zeros: when no colour space
/// can carry the target ink, no step of a content stream paints anything.
pub proof fn lemma_absent_ink_paints_nothing<T>(
    v: SeparationView<T>,
    op: SepPaintOp<T>,
    color_spaces: Seq<(String, Object)>,
    target: Seq<char>,
)
    requires
        forall|space: Seq<char>, cmyk_set: bool, n: nat|
            #[trigger] tint_source_spec(space, cmyk_set, color_spaces, target, n) is None,
    ensures
        !paints(sep_step_spec(v, op, color_spaces, target).1),
{
    let last = v.inks.last();
    assert(tint_source_spec(last.fill_space, last.fill_cmyk is Some, color_spaces, target, last.fill_components.len()) is None);
    assert(tint_source_spec(last.stroke_space, last.stroke_cmyk is Some, color_spaces, target, last.stroke_components.len()) is None);
}

/// The actions of running `ops` in order from state `v`.
pub open spec fn sep_run<T>(
    v: SeparationView<T>,
    ops: Seq<SepPaintOp<T>>,
    color_spaces: Seq<(String, Object)>,
    target: Seq<char>,
) -> Seq<SepAction<T>>
    decreases ops.len(),
{
    if ops.len() == 0 {
        Seq::empty()
    } else {
        let (w, a) = sep_step_spec(v, ops[0], color_spaces, target);
        seq![a] + sep_run(w, ops.drop_first(), color_spaces, target)
    }
}

/// If the ink is not present, the plate is all zeros: when no colour space
/// can carry the target ink, no action of a whole content stream paints.
pub proof fn lemma_absent_ink_run_paints_nothing<T>(
    v: SeparationView<T>,
    ops: Seq<SepPaintOp<T>>,
    color_spaces: Seq<(String, Object)>,
    target: Seq<char>,
)
    requires
        forall|space: Seq<char>, cmyk_set: bool, n: nat|
            #[trigger] tint_source_spec(space, cmyk_set, color_spaces, target, n) is None,
    ensures
        sep_run(v, ops, color_spaces, target).len() == ops.len(),
        forall|i: int|
            0 <= i < ops.len() ==> !paints(#[trigger] sep_run(v, ops, color_spaces, target)[i]),
    decreases ops.len(),
{
    if ops.len() > 0 {
        let (w, a) = sep_step_spec(v, ops[0], color_spaces, target);
        lemma_absent_ink_paints_nothing(v, ops[0], color_spaces, target);
        lemma_absent_ink_run_paints_nothing(w, ops.drop_first(), color_spaces, target);
        let run = sep_run(v, ops, color_spaces, target);
        assert forall|i: int| 0 <= i < ops.len() implies !paints(#[trigger] run[i]) by {
            if i > 0 {
                assert(run[i] == sep_run(w, ops.drop_first(), color_spaces, target)[i - 1]);
            }
        }
    }
}

/// A device colour space that carries no ink of a plate: RGB or gray.
pub open spec fn is_rgb_or_gray_space(space: Seq<char>) -> bool {
    space == "DeviceRGB"@ || space == "RGB"@ || space == "DeviceGray"@ || space == "G"@
}

/// An operator of a stream whose colour is RGB or gray only: no CMYK
/// colour operator, every colour space selected is RGB or gray, and no
/// XObject is drawn. Paths, fills, strokes, clips, `gs`, `q`/`Q` and the
/// rest are allowed.
pub open spec fn rgb_or_gray_op<T>(op: SepPaintOp<T>) -> bool {
    match op {
        SepPaintOp::Color(c) => match c {
            SepColorOp::SetFillCmyk(..) => false,
            SepColorOp::SetStrokeCmyk(..) => false,
            SepColorOp::SetFillColorSpace(n) => is_rgb_or_gray_space(n@),
            SepColorOp::SetStrokeColorSpace(n) => is_rgb_or_gray_space(n@),
            _ => true,
        },
        SepPaintOp::Do { .. } => false,
        _ => true,
    }
}

/// Every colour state has RGB or gray fill and stroke colour spaces.
pub open spec fn rgb_or_gray_state<T>(v: SeparationView<T>) -> bool {
    &&& v.inks.len() > 0
    &&& forall|i: int|
        0 <= i < v.inks.len() ==> is_rgb_or_gray_space(#[trigger] v.inks[i].fill_space)
            && is_rgb_or_gray_space(v.inks[i].stroke_space)
}

proof fn lemma_rgb_or_gray_not_cmyk(space: Seq<char>)
    requires
        is_rgb_or_gray_space(space),
    ensures
        !(space == "DeviceCMYK"@ || space == "CMYK"@),
{
    reveal_strlit("DeviceCMYK");
    reveal_strlit("CMYK");
    reveal_strlit("DeviceRGB");
    reveal_strlit("RGB");
    reveal_strlit("DeviceGray");
    reveal_strlit("G");
    assert("DeviceCMYK"@.len() == 10 && "CMYK"@.len() == 4);
    assert("DeviceRGB"@.len() == 9 && "RGB"@.len() == 3 && "G"@.len() == 1);
    assert("DeviceGray"@[6] != "DeviceCMYK"@[6]);
    assert("DeviceGray"@.len() != "CMYK"@.len());
}

proof fn lemma_rgb_or_gray_step<T>(
    v: SeparationView<T>,
    op: SepPaintOp<T>,
    color_spaces: Seq<(String, Object)>,
    target: Seq<char>,
)
    requires
        rgb_or_gray_state(v),
        rgb_or_gray_op(op),
    ensures
        rgb_or_gray_state(sep_step_spec(v, op, color_spaces, target).0),
        !paints(sep_step_spec(v, op, color_spaces, target).1),
        !(sep_step_spec(v, op, color_spaces, target).1 is RunForm),
{
    let last = v.inks.last();
    assert(is_rgb_or_gray_space(last.fill_space));
    assert(is_rgb_or_gray_space(last.stroke_space));
    lemma_rgb_or_gray_not_cmyk(last.fill_space);
    lemma_rgb_or_gray_not_cmyk(last.stroke_space);
    assert(tint_source_spec(last.fill_space, last.fill_cmyk is Some, color_spaces, target, last.fill_components.len()) is None);
    assert(tint_source_spec(last.stroke_space, last.stroke_cmyk is Some, color_spaces, target, last.stroke_components.len()) is None);
    if let SepPaintOp::Color(c) = op {
        let w = ink_stack_step(v.inks, c);
        match c {
            SepColorOp::Save => {
                assert forall|i: int| 0 <= i < w.len() implies is_rgb_or_gray_space(
                    #[trigger] w[i].fill_space,
                ) && is_rgb_or_gray_space(w[i].stroke_space) by {
                    if i < v.inks.len() {
                        assert(w[i] == v.inks[i]);
                    }
                }
            },
            SepColorOp::Restore => {
                assert forall|i: int| 0 <= i < w.len() implies is_rgb_or_gray_space(
                    #[trigger] w[i].fill_space,
                ) && is_rgb_or_gray_space(w[i].stroke_space) by {
                    assert(w[i] == v.inks[i]);
                }
            },
            _ => {
                let n = ink_step(last, c);
                assert(is_rgb_or_gray_space(n.fill_space) && is_rgb_or_gray_space(n.stroke_space));
                assert forall|i: int| 0 <= i < w.len() implies is_rgb_or_gray_space(
                    #[trigger] w[i].fill_space,
                ) && is_rgb_or_gray_space(w[i].stroke_space) by {
                    if i < v.inks.len() - 1 {
                        assert(w[i] == v.inks[i]);
                    }
                }
            },
        }
    }
}

/// A stream whose colour is RGB or gray only paints nothing on any plate
/// and runs no form: from the state at the start of a stream, no action
/// of the whole run paints or runs a form, whatever the target ink and
/// the colour spaces.
pub proof fn lemma_rgb_or_gray_stream_paints_nothing<T>(
    ops: Seq<SepPaintOp<T>>,
    color_spaces: Seq<(String, Object)>,
    target: Seq<char>,
)
    requires
        forall|i: int| 0 <= i < ops.len() ==> rgb_or_gray_op(#[trigger] ops[i]),
    ensures
        sep_run(sep_start::<T>(), ops, color_spaces, target).len() == ops.len(),
        forall|i: int|
            0 <= i < ops.len() ==> !paints(#[trigger] sep_run(sep_start::<T>(), ops, color_spaces, target)[i])
                && !(sep_run(sep_start::<T>(), ops, color_spaces, target)[i] is RunForm),
{
    let s0 = sep_start::<T>();
    assert(is_rgb_or_gray_space(s0.inks[0].fill_space));
    assert(rgb_or_gray_state(s0));
    lemma_rgb_or_gray_run(s0, ops, color_spaces, target);
}

proof fn lemma_rgb_or_gray_run<T>(
    v: SeparationView<T>,
    ops: Seq<SepPaintOp<T>>,
    color_spaces: Seq<(String, Object)>,
    target: Seq<char>,
)
    requires
        rgb_or_gray_state(v),
        forall|i: int| 0 <= i < ops.len() ==> rgb_or_gray_op(#[trigger] ops[i]),
    ensures
        sep_run(v, ops, color_spaces, target).len() == ops.len(),
        forall|i: int|
            0 <= i < ops.len() ==> !paints(#[trigger] sep_run(v, ops, color_spaces, target)[i])
                && !(sep_run(v, ops, color_spaces, target)[i] is RunForm),
    decreases ops.len(),
{
    if ops.len() > 0 {
        let (w, a) = sep_step_spec(v, ops[0], color_spaces, target);
        assert(rgb_or_gray_op(ops[0]));
        lemma_rgb_or_gray_step(v, ops[0], color_spaces, target);
        let rest = ops.drop_first();
        assert forall|i: int| 0 <= i < rest.len() implies rgb_or_gray_op(#[trigger] rest[i]) by {
            assert(rest[i] == ops[i + 1]);
        }
        lemma_rgb_or_gray_run(w, rest, color_spaces, target);
        let run = sep_run(v, ops, color_spaces, target);
        assert forall|i: int| 0 <= i < ops.len() implies !paints(#[trigger] run[i]) && !(
        run[i] is RunForm) by {
            if i > 0 {
                assert(run[i] == sep_run(w, rest, color_spaces, target)[i - 1]);
            }
        }
    }
}

/// The colour spaces inside a Form XObject: the page's, then the form's
/// own, so that a form entry replaces a page entry of the same name.
pub fn merge_color_spaces(
    parent: Vec<(String, Object)>,
    form: Vec<(String, Object)>,
) -> (r: Vec<(String, Object)>)
    ensures
        r@ == parent@ + form@,
{
    let mut r = parent;
    let mut f = form;
    r.append(&mut f);
    r
}

/// In merged colour spaces a name resolves to the form's entry when the
/// form has one, and to the page's otherwise.
pub proof fn lemma_merged_lookup(
    parent: Seq<(String, Object)>,
    form: Seq<(String, Object)>,
    name: Seq<char>,
)
    ensures
        lookup_spec(parent + form, name) == (match lookup_spec(form, name) {
            Some(o) => Some(o),
            None => lookup_spec(parent, name),
        }),
    decreases form.len(),
{
    if form.len() == 0 {
        assert(parent + form =~= parent);
    } else {
        assert((parent + form).drop_last() =~= parent + form.drop_last());
        lemma_merged_lookup(parent, form.drop_last(), name);
    }
}

/// Whether `render_plate` can render a plate for an ink named `ink`.
pub open spec fn rendered_ok<F: Fn(String) -> Result<SeparationPlate, Error>>(
    render_plate: F,
    ink: Seq<char>,
) -> bool {
    exists|p: SeparationPlate| #[trigger] rendered(render_plate, ink, Ok::<SeparationPlate, Error>(p))
}

/// Whether `render_plate` can answer `out` for an ink named `ink`.
pub open spec fn rendered<F: Fn(String) -> Result<SeparationPlate, Error>>(
    render_plate: F,
    ink: Seq<char>,
    out: Result<SeparationPlate, Error>,
) -> bool {
    exists|s: String| s@ == ink && #[trigger] call_ensures(render_plate, (s,), out)
}

/// Renders one plate per ink of a page: the inks are collected from the
/// page's colour operators and spot inks (see [`collect_page_inks`]), and
/// `render_plate` rasterises the plate of each, in ink order. The first
/// error of `render_plate` is returned; a page without inks has no
/// plates.
pub fn render_separations<F: Fn(String) -> Result<SeparationPlate, Error>>(
    ops: &[ColorOp],
    spot_inks: &Vec<String>,
    render_plate: F,
) -> (r: Result<Vec<SeparationPlate>, Error>)
    requires
        forall|ink: String| call_requires(render_plate, (ink,)),
        forall|ink: String, p: SeparationPlate|
            call_ensures(render_plate, (ink,), Ok::<SeparationPlate, Error>(p)) ==> p.ink_name@
                == ink@ && p.well_formed(),
    ensures
        ({
            let inks = page_inks_of(ops@, spot_inks.deep_view());
            match r {
                Ok(plates) => plates@.len() == inks.len() && (forall|i: int|
                    0 <= i < inks.len() ==> #[trigger] rendered(
                        render_plate,
                        inks[i],
                        Ok::<SeparationPlate, Error>(plates@[i]),
                    )) && (forall|i: int|
                    0 <= i < inks.len() ==> #[trigger] plates@[i].ink_name@ == inks[i]
                        && plates@[i].well_formed()) && (forall|i: int, j: int|
                    0 <= i < j < inks.len() ==> #[trigger] plates@[i].ink_name@
                        != #[trigger] plates@[j].ink_name@),
                Err(e) => exists|i: int|
                    0 <= i < inks.len() && #[trigger] rendered(
                        render_plate,
                        inks[i],
                        Err::<SeparationPlate, Error>(e),
                    ) && forall|k: int| 0 <= k < i ==> #[trigger] rendered_ok(render_plate, inks[k]),
            }
        }),
{
    let inks = collect_page_inks(ops, spot_inks);
    let ghost all = inks.deep_view();
    let mut plates: Vec<SeparationPlate> = Vec::new();
    let mut i: usize = 0;
    while i < inks.len()
        invariant
            forall|ink: String| call_requires(render_plate, (ink,)),
            forall|ink: String, p: SeparationPlate|
                call_ensures(render_plate, (ink,), Ok::<SeparationPlate, Error>(p)) ==> p.ink_name@
                    == ink@ && p.well_formed(),
            forall|k: int|
                0 <= k < i ==> #[trigger] plates@[k].ink_name@ == all[k]
                    && plates@[k].well_formed(),
            all == inks.deep_view(),
            all == page_inks_of(ops@, spot_inks.deep_view()),
            i <= all.len(),
            plates@.len() == i,
            forall|k: int|
                0 <= k < i ==> #[trigger] rendered(
                    render_plate,
                    all[k],
                    Ok::<SeparationPlate, Error>(plates@[k]),
                ),
        decreases inks.len() - i,
    {
        let ink = inks[i].as_str().to_owned();
        let ghost ink_v = ink;
        assert(ink_v@ == all[i as int]);
        let res = render_plate(ink);
        assert(call_ensures(render_plate, (ink_v,), res));
        assert(rendered(render_plate, all[i as int], res));
        match res {
            Ok(plate) => {
                plates.push(plate);
                assert(plates@[i as int] == plate);
            },
            Err(e) => {
                assert(rendered(render_plate, all[i as int], Err::<SeparationPlate, Error>(e)));
                assert forall|k: int| 0 <= k < i implies #[trigger] rendered_ok(
                    render_plate,
                    all[k],
                ) by {
                    assert(rendered(render_plate, all[k], Ok::<SeparationPlate, Error>(plates@[k])));
                }
                return Err(e);
            },
        }
        i = i + 1;
    }
    proof {
        lemma_page_inks(
            exists|j: int| 0 <= j < ops@.len() && is_cmyk_op(#[trigger] ops@[j]),
            spot_inks.deep_view(),
        );
        assert forall|a: int, b: int| 0 <= a < b < all.len() implies plates@[a].ink_name@
            != plates@[b].ink_name@ by {
            assert(plates@[a].ink_name@ == all[a]);
            assert(plates@[b].ink_name@ == all[b]);
        }
    }
    Ok(plates)
}

} // verus!
