//! From a request to the message that is handed to the provider.
//!
//! The checks run in a fixed order, and the first one that fails decides
//! the failure: the sender's domain, then the addresses of sender, `to`,
//! `cc`, `bcc` and reply-to, then the content, then the attachments. A
//! request that passes them all is prepared; what is left is its body,
//! which a template may have to render. Nothing is assembled from a part
//! of a request.

use vstd::prelude::*;
use vstd::string::*;
use vstd::utf8::*;
use crate::attachment::{
    decode_all, decoded_all, first_rejected, outbound_models, OutboundAttachment,
    OutboundAttachmentModel,
};
use crate::content::{
    after_render, render_request, render_view, rendering_of, resolve_content, resolved,
    select_body, untemplated, untemplated_body, BodyOutcome, BodyOutcomeModel, RenderRequest,
};
use crate::domain::{guard, guard_sender, sender_address};
use crate::error::{Error, ErrorModel};
use crate::legacy::email::{
    texts_of, AddressFieldsLegacy, AddressesModel, AttachmentLegacy, AttachmentModel,
    EmailRequestLegacy, EmailTemplateTypeLegacy, RequestModel,
};

verus! {

/// Whether the collection, where there is one, is short enough for the
/// encoder.
pub open spec fn optional_fits(a: Option<AddressesModel>) -> bool {
    match a {
        Some(a) => a.fits(),
        None => true,
    }
}

/// Whether the collection, where there is one, is short enough for the
/// encoder.
pub fn optional_addresses_fit(a: &Option<AddressFieldsLegacy>) -> (b: bool)
    ensures
        b == optional_fits(crate::legacy::email::optional_addresses(*a)),
{
    match a {
        Some(a) => a.fits(),
        None => true,
    }
}

impl RequestModel {
    /// Whether every text that may have to be encoded is short enough for
    /// the encoder.
    pub open spec fn fits(self) -> bool {
        &&& self.from.fits()
        &&& optional_fits(self.to)
        &&& optional_fits(self.cc)
        &&& optional_fits(self.bcc)
        &&& optional_fits(self.reply_to)
    }
}

impl EmailRequestLegacy {
    /// Whether every text that may have to be encoded is short enough for
    /// the encoder.
    pub fn fits(&self) -> (b: bool)
        ensures
            b == self@.fits(),
    {
        self.from.fits() && optional_addresses_fit(&self.to) && optional_addresses_fit(&self.cc)
            && optional_addresses_fit(&self.bcc) && optional_addresses_fit(&self.reply_to)
    }
}

/// The header-safe forms of a collection, where there is one. An absent
/// collection is no failure.
pub open spec fn optional_normalized(a: Option<AddressesModel>) -> Result<
    Option<Seq<Seq<char>>>,
    ErrorModel,
> {
    match a {
        None => Ok(None),
        Some(a) => match a.normalized() {
            Ok(list) => Ok(Some(list)),
            Err(e) => Err(e),
        },
    }
}

/// The one reply-to address: the header-safe form of the first field of the
/// collection, where there is a collection. A collection without a field is
/// a failure.
pub open spec fn reply_to_normalized(a: Option<AddressesModel>) -> Result<
    Option<Seq<char>>,
    ErrorModel,
> {
    match a {
        None => Ok(None),
        Some(a) => match a.first_normalized() {
            Ok(address) => Ok(Some(address)),
            Err(e) => Err(e),
        },
    }
}

/// The header-safe forms of a collection, where there is one.
pub fn normalize_optional(a: &Option<AddressFieldsLegacy>) -> (r: Result<
    Option<Vec<String>>,
    Error,
>)
    requires
        optional_fits(crate::legacy::email::optional_addresses(*a)),
    ensures
        match r {
            Ok(Some(list)) => optional_normalized(crate::legacy::email::optional_addresses(*a))
                == Ok::<Option<Seq<Seq<char>>>, ErrorModel>(Some(texts_of(list@))),
            Ok(None) => optional_normalized(crate::legacy::email::optional_addresses(*a)) == Ok::<
                Option<Seq<Seq<char>>>,
                ErrorModel,
            >(None),
            Err(e) => optional_normalized(crate::legacy::email::optional_addresses(*a)) == Err::<
                Option<Seq<Seq<char>>>,
                ErrorModel,
            >(e@),
        },
{
    match a {
        None => Ok(None),
        Some(a) => match a.normalized() {
            Ok(list) => Ok(Some(list)),
            Err(e) => Err(e),
        },
    }
}

/// The one reply-to address.
pub fn normalize_reply_to(a: &Option<AddressFieldsLegacy>) -> (r: Result<Option<String>, Error>)
    requires
        optional_fits(crate::legacy::email::optional_addresses(*a)),
    ensures
        crate::legacy::email::optional_text_result(r) == reply_to_normalized(
            crate::legacy::email::optional_addresses(*a),
        ),
{
    match a {
        None => Ok(None),
        Some(a) => match a.first_normalized() {
            Ok(address) => Ok(Some(address)),
            Err(e) => Err(e),
        },
    }
}

/// The participants and the supplied text of a mail, all checked.
#[derive(Debug)]
pub struct Envelope {
    pub from: String,
    pub to: Option<Vec<String>>,
    pub cc: Option<Vec<String>>,
    pub bcc: Option<Vec<String>>,
    pub reply_to: Option<String>,
    pub content: String,
    pub is_html: bool,
}

/// An [`Envelope`] over sequences of characters.
pub struct EnvelopeModel {
    pub from: Seq<char>,
    pub to: Option<Seq<Seq<char>>>,
    pub cc: Option<Seq<Seq<char>>>,
    pub bcc: Option<Seq<Seq<char>>>,
    pub reply_to: Option<Seq<char>>,
    pub content: Seq<char>,
    pub is_html: bool,
}

/// The texts of a list, where there is one.
pub open spec fn optional_texts(v: Option<Vec<String>>) -> Option<Seq<Seq<char>>> {
    match v {
        Some(v) => Some(texts_of(v@)),
        None => None,
    }
}

impl View for Envelope {
    type V = EnvelopeModel;

    open spec fn view(&self) -> EnvelopeModel {
        EnvelopeModel {
            from: self.from@,
            to: optional_texts(self.to),
            cc: optional_texts(self.cc),
            bcc: optional_texts(self.bcc),
            reply_to: crate::legacy::email::optional_text(self.reply_to),
            content: self.content@,
            is_html: self.is_html,
        }
    }
}

/// The envelope of a request, or the first failure on the way to it: of the
/// sender's domain, of the addresses of sender, `to`, `cc`, `bcc` and
/// reply-to in that order, or of the content.
pub open spec fn envelope_of(request: RequestModel) -> Result<EnvelopeModel, ErrorModel> {
    match guard(sender_address(request.from)) {
        Err(e) => Err(e),
        Ok(_) => match request.from.normalized() {
            Err(e) => Err(e),
            Ok(from) => match optional_normalized(request.to) {
                Err(e) => Err(e),
                Ok(to) => match optional_normalized(request.cc) {
                    Err(e) => Err(e),
                    Ok(cc) => match optional_normalized(request.bcc) {
                        Err(e) => Err(e),
                        Ok(bcc) => match reply_to_normalized(request.reply_to) {
                            Err(e) => Err(e),
                            Ok(reply_to) => match resolved(request.html, request.content) {
                                Err(e) => Err(e),
                                Ok((content, is_html)) => Ok(
                                    EnvelopeModel { from, to, cc, bcc, reply_to, content, is_html },
                                ),
                            },
                        },
                    },
                },
            },
        },
    }
}

/// An envelope, or its failure, over sequences of characters.
pub open spec fn envelope_result(r: Result<Envelope, Error>) -> Result<EnvelopeModel, ErrorModel> {
    match r {
        Ok(envelope) => Ok(envelope@),
        Err(e) => Err(e@),
    }
}

/// A request with neither `content` nor `html` has no envelope; where its
/// sender and addresses are in order, the failure is that of the missing
/// content.
pub proof fn lemma_no_content_no_envelope(request: RequestModel)
    requires
        request.content is None,
        request.html is None,
    ensures
        envelope_of(request) is Err,
        guard(sender_address(request.from)) is Ok && request.from.normalized() is Ok
            && optional_normalized(request.to) is Ok && optional_normalized(request.cc) is Ok
            && optional_normalized(request.bcc) is Ok && reply_to_normalized(request.reply_to)
            is Ok ==> envelope_of(request) == Err::<EnvelopeModel, ErrorModel>(
            ErrorModel::MissingContent,
        ),
{
}

/// A sender whose domain is not verified has no envelope, whatever else the
/// request holds: the failure is that of the domain guard.
pub proof fn lemma_unverified_sender_no_envelope(request: RequestModel)
    requires
        guard(sender_address(request.from)) is Err,
    ensures
        envelope_of(request) == Err::<EnvelopeModel, ErrorModel>(
            guard(sender_address(request.from))->Err_0,
        ),
        envelope_of(request)->Err_0 is InvalidEmailDomain,
{
}

/// The envelope of a request.
pub fn envelope(request: &EmailRequestLegacy) -> (r: Result<Envelope, Error>)
    requires
        request@.fits(),
    ensures
        envelope_result(r) == envelope_of(request@),
{
    match guard_sender(&request.from) {
        Err(e) => {
            return Err(e);
        },
        Ok(_) => {},
    }
    let from = match request.from.normalized() {
        Ok(s) => s,
        Err(e) => {
            return Err(e);
        },
    };
    let to = match normalize_optional(&request.to) {
        Ok(list) => list,
        Err(e) => {
            return Err(e);
        },
    };
    let cc = match normalize_optional(&request.cc) {
        Ok(list) => list,
        Err(e) => {
            return Err(e);
        },
    };
    let bcc = match normalize_optional(&request.bcc) {
        Ok(list) => list,
        Err(e) => {
            return Err(e);
        },
    };
    let reply_to = match normalize_reply_to(&request.reply_to) {
        Ok(address) => address,
        Err(e) => {
            return Err(e);
        },
    };
    match resolve_content(&request.html, &request.content) {
        Err(e) => Err(e),
        Ok((content, is_html)) => Ok(
            Envelope { from, to, cc, bcc, reply_to, content: String::from_str(content), is_html },
        ),
    }
}

/// What is handed to the provider: who sends to whom, the subject, the
/// body as HTML, and the files.
#[derive(Debug)]
pub struct OutboundMessage {
    pub from: String,
    pub to: Option<Vec<String>>,
    pub cc: Option<Vec<String>>,
    pub bcc: Option<Vec<String>>,
    pub reply_to: Option<String>,
    pub subject: String,
    pub html_body: String,
    pub attachments: Option<Vec<OutboundAttachment>>,
}

/// An [`OutboundMessage`] over sequences.
pub struct OutboundMessageModel {
    pub from: Seq<char>,
    pub to: Option<Seq<Seq<char>>>,
    pub cc: Option<Seq<Seq<char>>>,
    pub bcc: Option<Seq<Seq<char>>>,
    pub reply_to: Option<Seq<char>>,
    pub subject: Seq<char>,
    pub html_body: Seq<char>,
    pub attachments: Option<Seq<OutboundAttachmentModel>>,
}

/// The models of the files, where there are any.
pub open spec fn optional_outbound(files: Option<Vec<OutboundAttachment>>) -> Option<
    Seq<OutboundAttachmentModel>,
> {
    match files {
        Some(files) => Some(outbound_models(files@)),
        None => None,
    }
}

impl View for OutboundMessage {
    type V = OutboundMessageModel;

    open spec fn view(&self) -> OutboundMessageModel {
        OutboundMessageModel {
            from: self.from@,
            to: optional_texts(self.to),
            cc: optional_texts(self.cc),
            bcc: optional_texts(self.bcc),
            reply_to: crate::legacy::email::optional_text(self.reply_to),
            subject: self.subject@,
            html_body: self.html_body@,
            attachments: optional_outbound(self.attachments),
        }
    }
}

/// The message made of the given parts: the subject as it came, the body
/// in the HTML slot.
pub open spec fn assembled(
    envelope: EnvelopeModel,
    subject: Seq<char>,
    body: Seq<char>,
    attachments: Option<Seq<OutboundAttachmentModel>>,
) -> OutboundMessageModel {
    OutboundMessageModel {
        from: envelope.from,
        to: envelope.to,
        cc: envelope.cc,
        bcc: envelope.bcc,
        reply_to: envelope.reply_to,
        subject,
        html_body: body,
        attachments,
    }
}

/// Puts the parts of a message together.
pub fn assemble(
    envelope: Envelope,
    subject: String,
    body: String,
    attachments: Option<Vec<OutboundAttachment>>,
) -> (message: OutboundMessage)
    ensures
        message@ == assembled(envelope@, subject@, body@, optional_outbound(attachments)),
{
    OutboundMessage {
        from: envelope.from,
        to: envelope.to,
        cc: envelope.cc,
        bcc: envelope.bcc,
        reply_to: envelope.reply_to,
        subject,
        html_body: body,
        attachments,
    }
}

/// The files that the attachments of a request become: `Some(None)` for a
/// request without attachments, `None` where one of them is rejected.
pub open spec fn optional_decoded(attachments: Option<Seq<AttachmentModel>>) -> Option<
    Option<Seq<OutboundAttachmentModel>>,
> {
    match attachments {
        None => Some(None),
        Some(list) => match decoded_all(list) {
            Some(files) => Some(Some(files)),
            None => None,
        },
    }
}

/// The files that the attachments of a request become.
pub fn decode_optional(attachments: &Option<Vec<AttachmentLegacy>>) -> (r: Result<
    Option<Vec<OutboundAttachment>>,
    Error,
>)
    ensures
        match r {
            Ok(files) => optional_decoded(crate::legacy::email::optional_attachments(*attachments))
                == Some(optional_outbound(files)),
            Err(e) => optional_decoded(crate::legacy::email::optional_attachments(*attachments))
                is None && first_rejected_of(
                crate::legacy::email::optional_attachments(*attachments),
            ).rejected_with(e@),
        },
{
    match attachments {
        None => Ok(None),
        Some(list) => match decode_all(list) {
            Ok(files) => Ok(Some(files)),
            Err(e) => Err(e),
        },
    }
}

/// The first attachment of a request that is rejected.
pub open spec fn first_rejected_of(attachments: Option<Seq<AttachmentModel>>) -> AttachmentModel {
    attachments->Some_0[first_rejected(attachments->Some_0, 0)]
}

/// A message with the note of a template that failed to render, if one
/// did.
#[derive(Debug)]
pub struct Assembled {
    pub message: OutboundMessage,
    pub render_failure: Option<Error>,
}

/// Whether `body` and `render_failure` are what `outcome` amounts to.
pub open spec fn outcome_matches(
    outcome: BodyOutcomeModel,
    body: Seq<char>,
    render_failure: Option<Error>,
) -> bool {
    &&& body == outcome.body()
    &&& match outcome {
        BodyOutcomeModel::FallbackUsed { body, failure } => render_failure matches Some(e) && e@
            == failure,
        _ => render_failure is None,
    }
}

/// Puts the message of a request together from its envelope and what
/// became of its body and its attachments.
pub fn finish(
    envelope: Envelope,
    subject: String,
    outcome: BodyOutcome,
    attachments: Option<Vec<OutboundAttachment>>,
) -> (done: Assembled)
    ensures
        done.message@ == assembled(
            envelope@,
            subject@,
            outcome@.body(),
            optional_outbound(attachments),
        ),
        outcome_matches(outcome@, done.message@.html_body, done.render_failure),
{
    match outcome {
        BodyOutcome::Untemplated(body) => Assembled {
            message: assemble(envelope, subject, body, attachments),
            render_failure: None,
        },
        BodyOutcome::Rendered(body) => Assembled {
            message: assemble(envelope, subject, body, attachments),
            render_failure: None,
        },
        BodyOutcome::FallbackUsed { body, failure } => Assembled {
            message: assemble(envelope, subject, body, attachments),
            render_failure: Some(failure),
        },
    }
}

/// A request whose participants, content and attachments are in order.
/// What is left to make of it is its body.
#[derive(Debug)]
pub struct Prepared {
    pub envelope: Envelope,
    pub subject: String,
    pub template: EmailTemplateTypeLegacy,
    pub attachments: Option<Vec<OutboundAttachment>>,
}

/// A [`Prepared`] over sequences.
pub struct PreparedModel {
    pub envelope: EnvelopeModel,
    pub subject: Seq<char>,
    pub template: EmailTemplateTypeLegacy,
    pub attachments: Option<Seq<OutboundAttachmentModel>>,
}

impl View for Prepared {
    type V = PreparedModel;

    open spec fn view(&self) -> PreparedModel {
        PreparedModel {
            envelope: self.envelope@,
            subject: self.subject@,
            template: self.template,
            attachments: optional_outbound(self.attachments),
        }
    }
}

/// Whether `result` is what preparing `request` comes to.
///
/// A request without an envelope fails as the envelope does. One with a
/// rejected attachment fails as that attachment is rejected. Any other
/// request is prepared, with its envelope, its subject as it came, its
/// template and its files.
pub open spec fn prepared(request: RequestModel, result: Result<Prepared, Error>) -> bool {
    match envelope_of(request) {
        Err(failure) => result matches Err(e) && e@ == failure,
        Ok(envelope) => match optional_decoded(request.attachments) {
            None => result matches Err(e) && first_rejected_of(request.attachments).rejected_with(
                e@,
            ),
            Some(files) => result matches Ok(done) && done@ == (PreparedModel {
                envelope,
                subject: request.subject,
                template: request.template,
                attachments: files,
            }),
        },
    }
}

/// What a request is prepared to, where its envelope and its attachments
/// are in order.
pub open spec fn prepared_of(request: RequestModel) -> Option<PreparedModel> {
    match envelope_of(request) {
        Err(_) => None,
        Ok(envelope) => match optional_decoded(request.attachments) {
            None => None,
            Some(files) => Some(
                PreparedModel {
                    envelope,
                    subject: request.subject,
                    template: request.template,
                    attachments: files,
                },
            ),
        },
    }
}

/// Checks a request and makes everything of it but the body.
pub fn prepare(request: &EmailRequestLegacy) -> (r: Result<Prepared, Error>)
    requires
        request@.fits(),
    ensures
        prepared(request@, r),
        match r {
            Ok(done) => prepared_of(request@) == Some(done@),
            Err(_) => prepared_of(request@) is None,
        },
        request@.content is None && request@.html is None ==> r is Err,
{
    let envelope = match envelope(request) {
        Ok(envelope) => envelope,
        Err(e) => {
            return Err(e);
        },
    };
    let attachments = match decode_optional(&request.attachments) {
        Ok(files) => files,
        Err(e) => {
            return Err(e);
        },
    };
    Ok(
        Prepared {
            envelope,
            subject: request.subject.clone(),
            template: request.template,
            attachments,
        },
    )
}

impl PreparedModel {
    /// The message with the given body.
    pub open spec fn with_body(self, body: Seq<char>) -> OutboundMessageModel {
        assembled(self.envelope, self.subject, body, self.attachments)
    }

    /// The rendering that is asked for, where a template is.
    pub open spec fn rendering(self) -> Option<crate::content::RenderRequestModel> {
        rendering_of(self.template, self.envelope.content, self.envelope.is_html)
    }

    /// The body where no template has a part in it.
    pub open spec fn untemplated_body(self) -> Seq<char> {
        untemplated(self.envelope.content, self.envelope.is_html)
    }
}

impl Prepared {
    /// The rendering that is asked for: none where the request asks for no
    /// template; else the template by its name, given the body as it would
    /// be without a template.
    pub fn rendering(&self) -> (r: Option<RenderRequest>)
        ensures
            match r {
                Some(request) => self@.rendering() == Some(request@),
                None => self@.rendering() is None,
            },
            r is None <==> self.template == EmailTemplateTypeLegacy::Plain,
    {
        render_request(&self.template, self.envelope.content.as_str(), self.envelope.is_html)
    }

    /// The message of a request whose body no template has a part in: HTML
    /// as it came, plain text as the HTML that its markdown gives.
    pub fn complete_untemplated(self) -> (done: Assembled)
        ensures
            done.message@ == self@.with_body(self@.untemplated_body()),
            done.render_failure is None,
    {
        let body = untemplated_body(self.envelope.content.as_str(), self.envelope.is_html);
        finish(self.envelope, self.subject, BodyOutcome::Untemplated(body), self.attachments)
    }

    /// The message of a request whose template was asked to render.
    /// `rendered` is what it rendered, or why it did not. A failure costs
    /// the request nothing: the body is then the supplied text as it came,
    /// and the failure is noted beside the message.
    pub fn complete(self, rendered: Result<String, String>) -> (done: Assembled)
        ensures
            done.message@ == self@.with_body(
                after_render(self@.envelope.content, render_view(rendered)).body(),
            ),
            outcome_matches(
                after_render(self@.envelope.content, render_view(rendered)),
                done.message@.html_body,
                done.render_failure,
            ),
            rendered matches Ok(text) ==> done.message@.html_body == text@ && done.render_failure
                is None,
            rendered matches Err(detail) ==> done.message@.html_body == self@.envelope.content
                && (done.render_failure matches Some(e) && e@ == ErrorModel::TemplateRender(
                detail@,
            )),
    {
        let outcome = select_body(self.envelope.content.as_str(), rendered);
        finish(self.envelope, self.subject, outcome, self.attachments)
    }
}

} // verus!
