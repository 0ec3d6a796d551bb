//! Turning the attachments of a request into raw bytes.

use vstd::prelude::*;
use vstd::string::*;
use vstd::utf8::*;
use crate::encoding::{base64_bytes, decode_error_text, decode_standard};
use crate::error::{Error, ErrorModel};
use crate::legacy::email::{attachment_models, AttachmentLegacy, AttachmentModel};
use crate::text::{concat2, eq_ignore_ascii_case, same_text_ignore_ascii_case};

verus! {

/// How the payload of an attachment is written.
#[derive(Debug, Clone, Copy, PartialEq, Eq, Structural)]
pub enum AttachmentEncoding {
    Base64,
    Utf8,
}

/// The encoding that a tag names, whatever the case of its letters:
/// `base64`, or `utf-8` with or without the hyphen.
pub open spec fn encoding_named(tag: Seq<char>) -> Option<AttachmentEncoding> {
    if eq_ignore_ascii_case(tag, "base64"@) {
        Some(AttachmentEncoding::Base64)
    } else if eq_ignore_ascii_case(tag, "utf-8"@) || eq_ignore_ascii_case(tag, "utf8"@) {
        Some(AttachmentEncoding::Utf8)
    } else {
        None
    }
}

/// The encoding that a tag names.
pub fn encoding_of(tag: &str) -> (r: Option<AttachmentEncoding>)
    ensures
        r == encoding_named(tag@),
{
    if same_text_ignore_ascii_case(tag, "base64") {
        Some(AttachmentEncoding::Base64)
    } else if same_text_ignore_ascii_case(tag, "utf-8") || same_text_ignore_ascii_case(
        tag,
        "utf8",
    ) {
        Some(AttachmentEncoding::Utf8)
    } else {
        None
    }
}

/// The failure of an attachment whose encoding tag names no encoding.
pub open spec fn unsupported_failure(tag: Seq<char>) -> ErrorModel {
    ErrorModel::Attachment("Unsupported attachment encoding: "@ + tag)
}

/// The failure of an attachment whose payload is not base64.
pub open spec fn undecodable_failure(name: Seq<char>, detail: Seq<char>) -> ErrorModel {
    ErrorModel::Attachment("Failed to decode attachment "@ + name + ": "@ + detail)
}

impl AttachmentModel {
    /// The raw bytes of the payload, where it has any: of text its UTF-8
    /// bytes, of base64 what it decodes to.
    pub open spec fn data(self) -> Option<Seq<u8>> {
        match encoding_named(self.encoding) {
            Some(AttachmentEncoding::Utf8) => Some(encode_utf8(self.buffer)),
            Some(AttachmentEncoding::Base64) => base64_bytes(encode_utf8(self.buffer)),
            None => None,
        }
    }

    /// Whether `failure` is what an attachment without raw bytes is rejected
    /// with. For an unknown tag it names the tag; for a payload that is not
    /// base64 it names the file and goes on with the decoder's own words.
    pub open spec fn rejected_with(self, failure: ErrorModel) -> bool {
        match encoding_named(self.encoding) {
            None => failure == unsupported_failure(self.encoding),
            Some(_) => exists|detail: Seq<char>|
                failure == undecodable_failure(self.original_name, detail),
        }
    }
}

/// An attachment whose tag names no encoding has no raw bytes and is
/// rejected under that tag, whatever its payload holds.
pub proof fn lemma_unknown_encoding_is_rejected(attachment: AttachmentModel, payload: Seq<char>)
    requires
        encoding_named(attachment.encoding) is None,
    ensures
        (AttachmentModel { buffer: payload, ..attachment }).data() is None,
        (AttachmentModel { buffer: payload, ..attachment }).rejected_with(
            unsupported_failure(attachment.encoding),
        ),
{
}

/// What a decoding attempt on the payload of `attachment` comes to.
pub fn decoding_result(attachment: &AttachmentLegacy, decoded: Result<Vec<u8>, String>) -> (r:
    Result<Vec<u8>, Error>)
    ensures
        match decoded {
            Ok(bytes) => r == Ok::<Vec<u8>, Error>(bytes),
            Err(detail) => r matches Err(e) && e@ == undecodable_failure(
                attachment@.original_name,
                detail@,
            ),
        },
{
    match decoded {
        Ok(bytes) => Ok(bytes),
        Err(detail) => {
            let mut m = String::from_str("Failed to decode attachment ");
            m.append(attachment.original_name.as_str());
            m.append(": ");
            m.append(detail.as_str());
            Err(Error::Attachment(m))
        },
    }
}

/// The raw bytes of an attachment.
///
/// An attachment whose tag names no encoding is rejected whatever its
/// payload holds.
pub fn decode_attachment(attachment: &AttachmentLegacy) -> (r: Result<Vec<u8>, Error>)
    ensures
        match r {
            Ok(bytes) => attachment@.data() == Some(bytes@),
            Err(e) => attachment@.data() is None && attachment@.rejected_with(e@),
        },
        encoding_named(attachment@.encoding) is None ==> (r matches Err(e) && e@
            == unsupported_failure(attachment@.encoding)),
{
    match encoding_of(attachment.encoding.as_str()) {
        Some(AttachmentEncoding::Base64) => {
            let decoded = match decode_standard(attachment.buffer.as_str().as_bytes()) {
                Ok(bytes) => Ok(bytes),
                Err(e) => Err(decode_error_text(&e)),
            };
            let r = decoding_result(attachment, decoded);
            proof {
                if decoded is Err {
                    assert(r->Err_0@ == undecodable_failure(
                        attachment@.original_name,
                        decoded->Err_0@,
                    ));
                }
            }
            r
        },
        Some(AttachmentEncoding::Utf8) => Ok(attachment.buffer.as_str().as_bytes_vec()),
        None => Err(
            Error::Attachment(
                concat2("Unsupported attachment encoding: ", attachment.encoding.as_str()),
            ),
        ),
    }
}

/// A file as it is handed to the provider.
#[derive(Debug)]
pub struct OutboundAttachment {
    pub file_name: String,
    pub content_type: String,
    pub data: Vec<u8>,
}

/// An [`OutboundAttachment`] over sequences.
pub struct OutboundAttachmentModel {
    pub file_name: Seq<char>,
    pub content_type: Seq<char>,
    pub data: Seq<u8>,
}

impl View for OutboundAttachment {
    type V = OutboundAttachmentModel;

    open spec fn view(&self) -> OutboundAttachmentModel {
        OutboundAttachmentModel {
            file_name: self.file_name@,
            content_type: self.content_type@,
            data: self.data@,
        }
    }
}

/// The models of `files`, in order.
pub open spec fn outbound_models(files: Seq<OutboundAttachment>) -> Seq<OutboundAttachmentModel> {
    Seq::new(files.len(), |i: int| files[i]@)
}

/// Index of the first attachment at or after `from` that has no raw bytes,
/// or `attachments.len()` when there is none.
pub open spec fn first_rejected(attachments: Seq<AttachmentModel>, from: int) -> int
    decreases attachments.len() - from,
{
    if from < 0 || from >= attachments.len() {
        attachments.len() as int
    } else if attachments[from].data() is None {
        from
    } else {
        first_rejected(attachments, from + 1)
    }
}

/// Raw bytes for `attachments[from..k]` and none at `k`, or the end there,
/// fixes `first_rejected`.
pub proof fn lemma_first_rejected_at(attachments: Seq<AttachmentModel>, from: int, k: int)
    requires
        0 <= from <= k <= attachments.len(),
        forall|j: int| from <= j < k ==> (#[trigger] attachments[j]).data() is Some,
        k < attachments.len() ==> attachments[k].data() is None,
    ensures
        first_rejected(attachments, from) == k,
    decreases k - from,
{
    if from < k {
        lemma_first_rejected_at(attachments, from + 1, k);
    }
}

/// The file that an attachment with raw bytes becomes.
pub open spec fn outbound(attachment: AttachmentModel) -> OutboundAttachmentModel {
    OutboundAttachmentModel {
        file_name: attachment.original_name,
        content_type: attachment.mimetype,
        data: attachment.data()->Some_0,
    }
}

/// The files that `attachments` become, where each has raw bytes.
pub open spec fn decoded_all(attachments: Seq<AttachmentModel>) -> Option<
    Seq<OutboundAttachmentModel>,
> {
    let k = first_rejected(attachments, 0);
    if 0 <= k < attachments.len() {
        None
    } else {
        Some(Seq::new(attachments.len(), |i: int| outbound(attachments[i])))
    }
}

/// The files that `attachments` become, or the failure of the first one
/// that is rejected. Nothing is returned for a part of them.
pub fn decode_all(attachments: &Vec<AttachmentLegacy>) -> (r: Result<Vec<OutboundAttachment>, Error>)
    ensures
        match r {
            Ok(files) => decoded_all(attachment_models(attachments@)) == Some(
                outbound_models(files@),
            ),
            Err(e) => decoded_all(attachment_models(attachments@)) is None && attachment_models(
                attachments@,
            )[first_rejected(attachment_models(attachments@), 0)].rejected_with(e@),
        },
{
    let ghost models = attachment_models(attachments@);
    let mut files: Vec<OutboundAttachment> = Vec::new();
    let mut i: usize = 0;
    while i < attachments.len()
        invariant
            i <= attachments.len(),
            models == attachment_models(attachments@),
            files@.len() == i,
            forall|j: int| 0 <= j < i ==> (#[trigger] models[j]).data() is Some,
            forall|j: int| 0 <= j < i ==> (#[trigger] files@[j])@ == outbound(models[j]),
        decreases attachments.len() - i,
    {
        let attachment = &attachments[i];
        assert(models[i as int] == attachment@);
        match decode_attachment(attachment) {
            Ok(data) => {
                files.push(
                    OutboundAttachment {
                        file_name: attachment.original_name.clone(),
                        content_type: attachment.mimetype.clone(),
                        data,
                    },
                );
            },
            Err(e) => {
                proof {
                    lemma_first_rejected_at(models, 0, i as int);
                }
                return Err(e);
            },
        }
        i = i + 1;
    }
    proof {
        lemma_first_rejected_at(models, 0, i as int);
        assert(outbound_models(files@) =~= Seq::new(models.len(), |k: int| outbound(models[k])));
    }
    Ok(files)
}

} // verus!
