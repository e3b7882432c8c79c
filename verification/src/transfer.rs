//! The transfer rules: what copy mode writes to the clipboard, what text
//! paste and image paste read back, and what is reported about it.
//!
//! The functions work over the modeled clipboard snapshot; the surrounding
//! binary captures the snapshot from the live clipboard, hands it in, and
//! streams the returned payload to standard output.

use vstd::prelude::*;

use crate::clipboard::ClipData;
use crate::clipboard::PayloadModel;
use crate::clipboard::SimClipboard;
use crate::clipboard::clone_bytes;
use crate::formats::ImageFormat;
use crate::negotiate::ExtractError;
use crate::negotiate::SelectedImage;
use crate::negotiate::SelectedModel;
use crate::negotiate::spec_select;

verus! {

/// The platform's Unicode text format name.
pub open spec fn spec_unicode_text_id() -> Seq<char> {
    "CF_UNICODETEXT"@
}

/// The platform's legacy ANSI text format name.
pub open spec fn spec_ansi_text_id() -> Seq<char> {
    "CF_TEXT"@
}

/// The platform's legacy OEM text format name.
pub open spec fn spec_oem_text_id() -> Seq<char> {
    "CF_OEMTEXT"@
}

/// The platform's Unicode text format name.
pub fn unicode_text_name() -> (r: String)
    ensures
        r@ == spec_unicode_text_id(),
{
    "CF_UNICODETEXT".to_owned()
}

/// The platform's legacy ANSI text format name.
pub fn ansi_text_name() -> (r: String)
    ensures
        r@ == spec_ansi_text_id(),
{
    "CF_TEXT".to_owned()
}

/// The platform's legacy OEM text format name.
pub fn oem_text_name() -> (r: String)
    ensures
        r@ == spec_oem_text_id(),
{
    "CF_OEMTEXT".to_owned()
}

/// Copy mode: the input text replaces the whole clipboard content and is
/// published under the Unicode text format.
pub fn copy_text(clip: &mut SimClipboard, text: String)
    requires
        old(clip).wf(),
    ensures
        final (clip).wf(),
        final (clip)@ == Map::<Seq<char>, PayloadModel>::empty().insert(
            spec_unicode_text_id(),
            PayloadModel::Text(text@),
        ),
{
    clip.clear();
    clip.put(unicode_text_name(), ClipData::Text(text));
}

/// Text-paste failure: a text format is advertised but the Unicode text
/// representation cannot be read.
pub enum TransferError {
    ReadFailed,
}

/// Whether any recognized plain-text format variant is advertised.
pub open spec fn spec_text_available(clip: Map<Seq<char>, PayloadModel>) -> bool {
    ||| clip.contains_key(spec_oem_text_id())
    ||| clip.contains_key(spec_ansi_text_id())
    ||| clip.contains_key(spec_unicode_text_id())
}

/// What text paste returns on a given clipboard snapshot: nothing when no
/// text variant is advertised (a normal outcome), the Unicode text when it
/// can be read, and a read failure otherwise.
pub open spec fn spec_paste_text(clip: Map<Seq<char>, PayloadModel>) -> Result<
    Option<Seq<char>>,
    TransferError,
> {
    if !spec_text_available(clip) {
        Ok(None)
    } else if !clip.contains_key(spec_unicode_text_id()) {
        Err(TransferError::ReadFailed)
    } else {
        match clip[spec_unicode_text_id()] {
            PayloadModel::Text(t) => Ok(Some(t)),
            PayloadModel::Bytes(_) => Err(TransferError::ReadFailed),
        }
    }
}

/// Text paste: succeed with no output when the clipboard holds no text
/// variant, otherwise read the Unicode text representation.
pub fn paste_text(clip: &SimClipboard) -> (r: Result<Option<String>, TransferError>)
    requires
        clip.wf(),
    ensures
        match r {
            Ok(Some(t)) => spec_paste_text(clip@) == Ok::<Option<Seq<char>>, TransferError>(
                Some(t@),
            ),
            Ok(None) => spec_paste_text(clip@) == Ok::<Option<Seq<char>>, TransferError>(None),
            Err(e) => spec_paste_text(clip@) == Err::<Option<Seq<char>>, TransferError>(e),
        },
{
    let oem = oem_text_name();
    let ansi = ansi_text_name();
    let unicode = unicode_text_name();
    if clip.advertises(oem.as_str()) || clip.advertises(ansi.as_str()) || clip.advertises(
        unicode.as_str(),
    ) {
        match clip.read_text(unicode.as_str()) {
            Some(t) => Ok(Some(t)),
            None => Err(TransferError::ReadFailed),
        }
    } else {
        Ok(None)
    }
}

/// Image paste: negotiate over the candidate list and extract the matched
/// payload; a miss is the normal `NotFound` outcome.
pub fn paste_image(candidates: &Vec<ImageFormat>, clip: &SimClipboard) -> (r: Result<
    SelectedImage,
    ExtractError,
>)
    requires
        clip.wf(),
    ensures
        match r {
            Ok(img) => spec_select(candidates@, clip@) == Ok::<SelectedModel, ImageFormat>(img@),
            Err(e) => spec_select(candidates@, clip@) == Err::<SelectedModel, ImageFormat>(e@),
        },
{
    crate::negotiate::select(candidates, clip)
}

impl SelectedImage {
    /// The raw payload of a binary selection, paired with the byte count
    /// that is reported on the diagnostic stream; the count always equals
    /// the number of payload bytes handed to standard output.
    pub fn binary_payload(&self) -> (r: Option<(Vec<u8>, usize)>)
        ensures
            match r {
                Some(p) => {
                    &&& self@ matches SelectedModel::BinaryImage { bytes, .. } && p.0@ == bytes
                    &&& p.1 == p.0@.len()
                },
                None => !(self@ is BinaryImage),
            },
    {
        match self {
            SelectedImage::BinaryImage { format: _, bytes } => {
                let out = clone_bytes(bytes);
                let count = out.len();
                Some((out, count))
            },
            _ => None,
        }
    }
}

/// Round trip: pasting immediately after copying some text yields exactly
/// that text back.
pub proof fn lemma_copy_paste_round_trip(text: Seq<char>)
    ensures
        spec_paste_text(
            Map::<Seq<char>, PayloadModel>::empty().insert(
                spec_unicode_text_id(),
                PayloadModel::Text(text),
            ),
        ) == Ok::<Option<Seq<char>>, TransferError>(Some(text)),
{
}

/// Idempotence: paste reads a snapshot and changes nothing, so repeated
/// pastes over the same clipboard state return identical output — both
/// for text paste and for image negotiation.
pub proof fn lemma_paste_idempotent(
    clip1: Map<Seq<char>, PayloadModel>,
    clip2: Map<Seq<char>, PayloadModel>,
    cands: Seq<ImageFormat>,
)
    requires
        clip1 == clip2,
    ensures
        spec_paste_text(clip1) == spec_paste_text(clip2),
        spec_select(cands, clip1) == spec_select(cands, clip2),
{
}

} // verus!
