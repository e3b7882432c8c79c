//! The closed set of image clipboard formats the tool negotiates over,
//! their registered names, and their classification into string-encoded
//! and binary-encoded retrieval paths.

use vstd::prelude::*;

verus! {

/// An image clipboard format the tool knows how to request.
///
/// The set is closed on purpose: every format is classified at compile
/// time as string-encoded or binary-encoded, and negotiation handles each
/// variant exhaustively.
#[derive(Clone, Copy, Debug, PartialEq, Eq, Structural)]
pub enum ImageFormat {
    Svg,
    Ico,
    Png,
    Bmp,
    Jpeg,
    Gif,
}

/// The registered clipboard name of a format, as a character sequence.
pub open spec fn spec_format_name(f: ImageFormat) -> Seq<char> {
    match f {
        ImageFormat::Svg => "Svg"@,
        ImageFormat::Ico => "Ico"@,
        ImageFormat::Png => "Png"@,
        ImageFormat::Bmp => "Bmp"@,
        ImageFormat::Jpeg => "Jpeg"@,
        ImageFormat::Gif => "Gif"@,
    }
}

/// The registered clipboard name of a format.
pub fn format_name(f: ImageFormat) -> (r: String)
    ensures
        r@ == spec_format_name(f),
{
    match f {
        ImageFormat::Svg => "Svg".to_owned(),
        ImageFormat::Ico => "Ico".to_owned(),
        ImageFormat::Png => "Png".to_owned(),
        ImageFormat::Bmp => "Bmp".to_owned(),
        ImageFormat::Jpeg => "Jpeg".to_owned(),
        ImageFormat::Gif => "Gif".to_owned(),
    }
}

/// A format whose payload travels as text rather than raw bytes.
/// Only the vector-graphics format is textual; the icon, bitmap and
/// compressed-image formats are all binary.
pub open spec fn spec_is_string_encoded(f: ImageFormat) -> bool {
    f == ImageFormat::Svg
}

/// Whether a format is retrieved over the string path (vector markup)
/// rather than the binary path (bitmap-family and compressed formats).
#[verifier::when_used_as_spec(spec_is_string_encoded)]
pub fn is_string_encoded(f: ImageFormat) -> (r: bool)
    ensures
        r == spec_is_string_encoded(f),
{
    f == ImageFormat::Svg
}

/// The built-in preference order that the wildcard candidate expands to.
pub open spec fn spec_default_preference() -> Seq<ImageFormat> {
    seq![
        ImageFormat::Svg,
        ImageFormat::Ico,
        ImageFormat::Png,
        ImageFormat::Bmp,
        ImageFormat::Jpeg,
        ImageFormat::Gif,
    ]
}

/// The built-in preference order that the wildcard candidate expands to.
pub fn default_preference() -> (r: Vec<ImageFormat>)
    ensures
        r@ == spec_default_preference(),
{
    let v: Vec<ImageFormat> = vec![
        ImageFormat::Svg,
        ImageFormat::Ico,
        ImageFormat::Png,
        ImageFormat::Bmp,
        ImageFormat::Jpeg,
        ImageFormat::Gif,
    ];
    assert(v@ =~= spec_default_preference());
    v
}

/// String equality over the character views.
pub fn str_eq(a: &str, b: &str) -> (r: bool)
    ensures
        r == (a@ == b@),
{
    let owned_a: String = a.to_owned();
    let owned_b: String = b.to_owned();
    owned_a == owned_b
}

/// Parsing a registered format name back into the closed format set.
pub open spec fn spec_parse_format(s: Seq<char>) -> Option<ImageFormat> {
    if s == spec_format_name(ImageFormat::Svg) {
        Some(ImageFormat::Svg)
    } else if s == spec_format_name(ImageFormat::Ico) {
        Some(ImageFormat::Ico)
    } else if s == spec_format_name(ImageFormat::Png) {
        Some(ImageFormat::Png)
    } else if s == spec_format_name(ImageFormat::Bmp) {
        Some(ImageFormat::Bmp)
    } else if s == spec_format_name(ImageFormat::Jpeg) {
        Some(ImageFormat::Jpeg)
    } else if s == spec_format_name(ImageFormat::Gif) {
        Some(ImageFormat::Gif)
    } else {
        None
    }
}

/// The six registered format names and the wildcard are pairwise distinct.
pub proof fn lemma_format_names_distinct()
    ensures
        forall|f1: ImageFormat, f2: ImageFormat|
            f1 != f2 ==> spec_format_name(f1) != spec_format_name(f2),
        forall|f: ImageFormat| spec_format_name(f) != "*"@,
{
    reveal_strlit("Svg");
    reveal_strlit("Ico");
    reveal_strlit("Png");
    reveal_strlit("Bmp");
    reveal_strlit("Jpeg");
    reveal_strlit("Gif");
    reveal_strlit("*");
    assert forall|f1: ImageFormat, f2: ImageFormat| f1 != f2 implies spec_format_name(f1)
        != spec_format_name(f2) by {
        assert(spec_format_name(f1)[0] != spec_format_name(f2)[0]);
    }
    assert forall|f: ImageFormat| spec_format_name(f) != "*"@ by {
        assert(spec_format_name(f).len() == if f is Jpeg {
            4int
        } else {
            3int
        });
    }
}

/// Parse a registered format name; any other spelling is rejected.
pub fn parse_format(s: &str) -> (r: Option<ImageFormat>)
    ensures
        r == spec_parse_format(s@),
{
    proof {
        lemma_format_names_distinct();
    }
    if str_eq(s, "Svg") {
        Some(ImageFormat::Svg)
    } else if str_eq(s, "Ico") {
        Some(ImageFormat::Ico)
    } else if str_eq(s, "Png") {
        Some(ImageFormat::Png)
    } else if str_eq(s, "Bmp") {
        Some(ImageFormat::Bmp)
    } else if str_eq(s, "Jpeg") {
        Some(ImageFormat::Jpeg)
    } else if str_eq(s, "Gif") {
        Some(ImageFormat::Gif)
    } else {
        None
    }
}

/// How a requested source-format argument resolves to a candidate list:
/// the wildcard expands to the full built-in preference order, a specific
/// registered name stands alone, and anything else is rejected.
pub open spec fn spec_resolve_candidates(s: Seq<char>) -> Option<Seq<ImageFormat>> {
    if s == "*"@ {
        Some(spec_default_preference())
    } else {
        match spec_parse_format(s) {
            Some(f) => Some(seq![f]),
            None => None,
        }
    }
}

/// Turn the requested source format into the prioritized candidate list.
pub fn resolve_candidates(s: &str) -> (r: Option<Vec<ImageFormat>>)
    ensures
        match r {
            Some(v) => spec_resolve_candidates(s@) == Some(v@),
            None => spec_resolve_candidates(s@) is None,
        },
{
    proof {
        lemma_format_names_distinct();
    }
    if str_eq(s, "*") {
        Some(default_preference())
    } else {
        match parse_format(s) {
            Some(f) => {
                let v: Vec<ImageFormat> = vec![f];
                assert(v@ =~= seq![f]);
                Some(v)
            },
            None => None,
        }
    }
}

} // verus!
