//! Clipboard format negotiation.
//!
//! Given a prioritized candidate list and the set of formats the clipboard
//! currently advertises, negotiation picks the first candidate present and
//! classifies it for extraction over the string or the binary path. A miss
//! is a normal outcome, not an error; only a payload that cannot be read
//! over the path its format prescribes is a failure.

use vstd::prelude::*;

use crate::clipboard::PayloadModel;
use crate::clipboard::SimClipboard;
use crate::formats::ImageFormat;
use crate::formats::format_name;
use crate::formats::is_string_encoded;
use crate::formats::spec_default_preference;
use crate::formats::spec_format_name;
use crate::formats::spec_is_string_encoded;
use crate::formats::spec_resolve_candidates;

verus! {

/// The index of the first candidate whose registered name the clipboard
/// advertises, walking the list in priority order.
pub open spec fn spec_first_match(cands: Seq<ImageFormat>, avail: Set<Seq<char>>) -> Option<int>
    decreases cands.len(),
{
    if cands.len() == 0 {
        None
    } else if avail.contains(spec_format_name(cands[0])) {
        Some(0)
    } else {
        match spec_first_match(cands.drop_first(), avail) {
            Some(i) => Some(i + 1),
            None => None,
        }
    }
}

/// What the first-match index means: it points at an advertised candidate
/// that no earlier candidate beats, and it is absent exactly when no
/// candidate is advertised at all.
pub proof fn lemma_first_match_characterization(cands: Seq<ImageFormat>, avail: Set<Seq<char>>)
    ensures
        match spec_first_match(cands, avail) {
            Some(i) => {
                &&& 0 <= i < cands.len()
                &&& avail.contains(spec_format_name(cands[i]))
                &&& forall|j: int|
                    0 <= j < i ==> !avail.contains(spec_format_name(#[trigger] cands[j]))
            },
            None => forall|j: int|
                0 <= j < cands.len() ==> !avail.contains(spec_format_name(#[trigger] cands[j])),
        },
    decreases cands.len(),
{
    if cands.len() > 0 && !avail.contains(spec_format_name(cands[0])) {
        let rest = cands.drop_first();
        lemma_first_match_characterization(rest, avail);
        match spec_first_match(rest, avail) {
            Some(i) => {
                assert(rest[i] == cands[i + 1]);
                assert forall|j: int| 0 <= j < i + 1 implies !avail.contains(
                    spec_format_name(#[trigger] cands[j]),
                ) by {
                    if j > 0 {
                        assert(rest[j - 1] == cands[j]);
                        assert(!avail.contains(spec_format_name(rest[j - 1])));
                    }
                }
            },
            None => {
                assert forall|j: int| 0 <= j < cands.len() implies !avail.contains(
                    spec_format_name(#[trigger] cands[j]),
                ) by {
                    if j > 0 {
                        assert(rest[j - 1] == cands[j]);
                        assert(!avail.contains(spec_format_name(rest[j - 1])));
                    }
                }
            },
        }
    }
}

/// The first-match index is the only index that is advertised and has no
/// advertised candidate before it.
pub proof fn lemma_first_match_unique(cands: Seq<ImageFormat>, avail: Set<Seq<char>>, i: int)
    requires
        0 <= i < cands.len(),
        avail.contains(spec_format_name(cands[i])),
        forall|j: int| 0 <= j < i ==> !avail.contains(spec_format_name(#[trigger] cands[j])),
    ensures
        spec_first_match(cands, avail) == Some(i),
{
    lemma_first_match_characterization(cands, avail);
    match spec_first_match(cands, avail) {
        Some(k) => {
            if k < i {
                assert(!avail.contains(spec_format_name(cands[k])));
            }
            if i < k {
                assert(!avail.contains(spec_format_name(cands[i])));
            }
        },
        None => {
            assert(!avail.contains(spec_format_name(cands[i])));
        },
    }
}

/// The negotiated format: the first advertised candidate, if any.
pub open spec fn spec_choose_format(cands: Seq<ImageFormat>, avail: Set<Seq<char>>) -> Option<
    ImageFormat,
> {
    match spec_first_match(cands, avail) {
        Some(i) => Some(cands[i]),
        None => None,
    }
}

/// Whether one of the advertised names equals `target`.
fn name_advertised(advertised: &Vec<String>, target: &str) -> (r: bool)
    ensures
        r == advertised.deep_view().to_set().contains(target@),
{
    let n = advertised.len();
    let mut k: usize = 0;
    while k < n
        invariant
            n == advertised@.len(),
            k <= n,
            forall|j: int| 0 <= j < k ==> advertised@[j]@ != target@,
        decreases n - k,
    {
        if crate::formats::str_eq(advertised[k].as_str(), target) {
            assert(advertised.deep_view()[k as int] == target@);
            return true;
        }
        k += 1;
    }
    assert forall|j: int| 0 <= j < advertised.deep_view().len() implies advertised.deep_view()[j]
        != target@ by {
        assert(advertised@[j]@ != target@);
    }
    false
}

/// Pick the first candidate whose registered name occurs among the
/// advertised format names, in candidate order; the order in which the
/// platform enumerated the names plays no part.
pub fn choose_format(candidates: &Vec<ImageFormat>, advertised: &Vec<String>) -> (r: Option<
    ImageFormat,
>)
    ensures
        r == spec_choose_format(candidates@, advertised.deep_view().to_set()),
{
    let ghost avail = advertised.deep_view().to_set();
    let n = candidates.len();
    let mut k: usize = 0;
    while k < n
        invariant
            n == candidates@.len(),
            k <= n,
            avail == advertised.deep_view().to_set(),
            forall|j: int|
                0 <= j < k ==> !avail.contains(spec_format_name(#[trigger] candidates@[j])),
        decreases n - k,
    {
        let f = candidates[k];
        let name = format_name(f);
        if name_advertised(advertised, name.as_str()) {
            proof {
                lemma_first_match_unique(candidates@, avail, k as int);
            }
            return Some(f);
        }
        k += 1;
    }
    proof {
        lemma_first_match_characterization(candidates@, avail);
        if spec_first_match(candidates@, avail) is Some {
            let i = spec_first_match(candidates@, avail)->Some_0;
            assert(!avail.contains(spec_format_name(candidates@[i])));
        }
    }
    None
}

/// The negotiated image as specifications see it.
pub enum SelectedModel {
    StringImage { format: ImageFormat, name: Seq<char>, text: Seq<char> },
    BinaryImage { format: ImageFormat, bytes: Seq<u8> },
    NotFound,
}

/// The outcome of negotiation: a text-encoded image, a binary image, or
/// the normal no-match outcome.
pub enum SelectedImage {
    StringImage { format: ImageFormat, name: String, text: String },
    BinaryImage { format: ImageFormat, bytes: Vec<u8> },
    NotFound,
}

impl View for SelectedImage {
    type V = SelectedModel;

    open spec fn view(&self) -> SelectedModel {
        match self {
            SelectedImage::StringImage { format, name, text } => SelectedModel::StringImage {
                format: *format,
                name: name@,
                text: text@,
            },
            SelectedImage::BinaryImage { format, bytes } => SelectedModel::BinaryImage {
                format: *format,
                bytes: bytes@,
            },
            SelectedImage::NotFound => SelectedModel::NotFound,
        }
    }
}

/// Extraction failure: the matched format's payload could not be read
/// over the path its classification prescribes.
pub enum ExtractError {
    WrongEncoding(ImageFormat),
}

impl View for ExtractError {
    type V = ImageFormat;

    open spec fn view(&self) -> ImageFormat {
        match self {
            ExtractError::WrongEncoding(f) => *f,
        }
    }
}

/// Negotiation over a clipboard snapshot: the first advertised candidate
/// is extracted over its path; no advertised candidate at all is the
/// normal `NotFound` outcome; a payload on the wrong path is an error
/// naming the format.
pub open spec fn spec_select(
    cands: Seq<ImageFormat>,
    clip: Map<Seq<char>, PayloadModel>,
) -> Result<SelectedModel, ImageFormat> {
    match spec_first_match(cands, clip.dom()) {
        None => Ok(SelectedModel::NotFound),
        Some(i) => {
            let f = cands[i];
            let name = spec_format_name(f);
            if spec_is_string_encoded(f) {
                match clip[name] {
                    PayloadModel::Text(t) => Ok(
                        SelectedModel::StringImage { format: f, name: name, text: t },
                    ),
                    PayloadModel::Bytes(_) => Err(f),
                }
            } else {
                match clip[name] {
                    PayloadModel::Bytes(b) => Ok(SelectedModel::BinaryImage { format: f, bytes: b }),
                    PayloadModel::Text(_) => Err(f),
                }
            }
        },
    }
}

/// Negotiate over a clipboard snapshot and extract the matched payload.
pub fn select(candidates: &Vec<ImageFormat>, clip: &SimClipboard) -> (r: Result<
    SelectedImage,
    ExtractError,
>)
    requires
        clip.wf(),
    ensures
        match r {
            Ok(img) => spec_select(candidates@, clip@) == Ok::<SelectedModel, ImageFormat>(img@),
            Err(e) => spec_select(candidates@, clip@) == Err::<SelectedModel, ImageFormat>(e@),
        },
{
    let n = candidates.len();
    let mut k: usize = 0;
    while k < n
        invariant
            clip.wf(),
            n == candidates@.len(),
            k <= n,
            forall|j: int|
                0 <= j < k ==> !clip@.dom().contains(spec_format_name(#[trigger] candidates@[j])),
        decreases n - k,
    {
        let f = candidates[k];
        let name = format_name(f);
        if clip.advertises(name.as_str()) {
            proof {
                lemma_first_match_unique(candidates@, clip@.dom(), k as int);
            }
            if is_string_encoded(f) {
                match clip.read_text(name.as_str()) {
                    Some(t) => {
                        return Ok(SelectedImage::StringImage { format: f, name, text: t });
                    },
                    None => {
                        return Err(ExtractError::WrongEncoding(f));
                    },
                }
            } else {
                match clip.read_bytes(name.as_str()) {
                    Some(b) => {
                        return Ok(SelectedImage::BinaryImage { format: f, bytes: b });
                    },
                    None => {
                        return Err(ExtractError::WrongEncoding(f));
                    },
                }
            }
        }
        k += 1;
    }
    proof {
        lemma_first_match_characterization(candidates@, clip@.dom());
        if spec_first_match(candidates@, clip@.dom()) is Some {
            let i = spec_first_match(candidates@, clip@.dom())->Some_0;
            assert(!clip@.dom().contains(spec_format_name(candidates@[i])));
        }
    }
    Ok(SelectedImage::NotFound)
}

/// Selection and the pure negotiator agree: whatever the extraction
/// outcome, the format that selection committed to is exactly the first
/// advertised candidate.
pub proof fn lemma_select_agrees_with_choose_format(
    cands: Seq<ImageFormat>,
    clip: Map<Seq<char>, PayloadModel>,
)
    ensures
        match spec_select(cands, clip) {
            Ok(SelectedModel::StringImage { format, .. }) => spec_choose_format(cands, clip.dom())
                == Some(format),
            Ok(SelectedModel::BinaryImage { format, .. }) => spec_choose_format(cands, clip.dom())
                == Some(format),
            Ok(SelectedModel::NotFound) => spec_choose_format(cands, clip.dom()) is None,
            Err(f) => spec_choose_format(cands, clip.dom()) == Some(f),
        },
{
}

/// If the clipboard advertises exactly one candidate, negotiation selects
/// exactly that one, wherever it stands in the list and however the
/// platform happened to enumerate the clipboard's formats.
pub proof fn lemma_single_advertised_candidate_selected(
    cands: Seq<ImageFormat>,
    avail: Set<Seq<char>>,
    i: int,
)
    requires
        0 <= i < cands.len(),
        avail.contains(spec_format_name(cands[i])),
        forall|j: int|
            0 <= j < cands.len() && j != i ==> !avail.contains(
                spec_format_name(#[trigger] cands[j]),
            ),
    ensures
        spec_choose_format(cands, avail) == Some(cands[i]),
{
    lemma_first_match_unique(cands, avail, i);
}

/// If the clipboard advertises none of the candidates, negotiation ends
/// in the normal `NotFound` outcome, never in an error.
pub proof fn lemma_no_advertised_candidate_not_found(
    cands: Seq<ImageFormat>,
    clip: Map<Seq<char>, PayloadModel>,
)
    requires
        forall|j: int|
            0 <= j < cands.len() ==> !clip.dom().contains(spec_format_name(#[trigger] cands[j])),
    ensures
        spec_select(cands, clip) == Ok::<SelectedModel, ImageFormat>(SelectedModel::NotFound),
{
    lemma_first_match_characterization(cands, clip.dom());
    if spec_first_match(cands, clip.dom()) is Some {
        let i = spec_first_match(cands, clip.dom())->Some_0;
        assert(!clip.dom().contains(spec_format_name(cands[i])));
    }
}

/// When two or more candidates are advertised at once, the one occurring
/// earliest in the candidate list wins: every candidate before the
/// selected one is unavailable.
pub proof fn lemma_earliest_candidate_wins(cands: Seq<ImageFormat>, avail: Set<Seq<char>>)
    requires
        exists|j: int| 0 <= j < cands.len() && avail.contains(spec_format_name(#[trigger] cands[j])),
    ensures
        spec_first_match(cands, avail) is Some,
        ({
            let i = spec_first_match(cands, avail)->Some_0;
            &&& 0 <= i < cands.len()
            &&& avail.contains(spec_format_name(cands[i]))
            &&& forall|j: int|
                0 <= j < i ==> !avail.contains(spec_format_name(#[trigger] cands[j]))
            &&& spec_choose_format(cands, avail) == Some(cands[i])
        }),
{
    lemma_first_match_characterization(cands, avail);
    if spec_first_match(cands, avail) is None {
        let j = choose|j: int|
            0 <= j < cands.len() && avail.contains(spec_format_name(#[trigger] cands[j]));
        assert(!avail.contains(spec_format_name(cands[j])));
    }
}

/// Negotiation looks only at the set of advertised names: two
/// enumerations of the same clipboard state negotiate alike.
pub proof fn lemma_enumeration_order_irrelevant(
    cands: Seq<ImageFormat>,
    names1: Seq<Seq<char>>,
    names2: Seq<Seq<char>>,
)
    requires
        names1.to_set() == names2.to_set(),
    ensures
        spec_choose_format(cands, names1.to_set()) == spec_choose_format(cands, names2.to_set()),
{
}

/// Passing the wildcard is the same as passing the full built-in
/// preference order explicitly, for any clipboard state.
pub proof fn lemma_wildcard_expansion(clip: Map<Seq<char>, PayloadModel>)
    ensures
        spec_resolve_candidates("*"@) == Some(spec_default_preference()),
        spec_select(spec_resolve_candidates("*"@)->Some_0, clip) == spec_select(
            spec_default_preference(),
            clip,
        ),
{
}

} // verus!
