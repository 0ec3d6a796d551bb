//! The body of a mail: which of the supplied texts it is made from, what
//! a template is asked to render, and what becomes of the attempt.
//!
//! Markdown is turned into HTML by the `markdown` crate, and templates are
//! registered with a registry of the `handlebars` crate. The functions that
//! call the two are not proved; each says in its doc comment what is relied
//! on. Everything decided around the calls is verified.
//!
//! Rendering itself is left to the caller. A registry can hold templates
//! that include each other without end, and on those rendering does not
//! return; nothing here can tell such a registry from another. So this
//! module says what is to be rendered ([`render_request`]) and takes what
//! came back ([`select_body`]).

use handlebars::Handlebars;
use handlebars::TemplateError;
use vstd::prelude::*;
use vstd::string::*;
use crate::error::{Error, ErrorModel};
use crate::legacy::email::EmailTemplateTypeLegacy;

verus! {

/// The HTML that `markdown::to_html` produces for `source`.
pub uninterp spec fn markdown_html(source: Seq<char>) -> Seq<char>;

/// The template registry of the `handlebars` crate.
#[verifier::external_type_specification]
#[verifier::external_body]
pub struct ExHandlebars<'reg>(Handlebars<'reg>);

/// The names under which `registry` looks a template up when it renders:
/// those of the templates registered in it and, in its development mode,
/// those of its registered template sources.
pub uninterp spec fn template_names(registry: Handlebars<'static>) -> Set<Seq<char>>;

/// Whether `handlebars::Handlebars::register_template_string` takes
/// `source` as a template: whether it parses and its blocks close as they
/// were opened.
pub uninterp spec fn template_accepted(source: Seq<char>) -> bool;

/// The error of `handlebars::Handlebars::register_template_string`.
#[verifier::external_type_specification]
#[verifier::external_body]
pub struct ExTemplateError(TemplateError);

/// Calls `markdown::to_html`.
///
/// Relied on: the result is a function of the source text alone. With the
/// default options that the function uses, the crate documents that no
/// input is a syntax error.
#[verifier::external_body]
pub(crate) fn markdown_to_html(source: &str) -> (html: String)
    ensures
        html@ == markdown_html(source@),
{
    markdown::to_html(source)
}

/// Calls `handlebars::Handlebars::register_template_string`.
///
/// Relied on: whether a source is taken depends on the source alone. One
/// that is taken is registered under `name`, beside what was registered
/// before; one that is not leaves the names as they were.
#[verifier::external_body]
pub(crate) fn register_source(registry: &mut Handlebars<'static>, name: &str, source: &str) -> (r:
    Result<(), TemplateError>)
    ensures
        r is Ok <==> template_accepted(source@),
        match r {
            Ok(_) => template_names(*final(registry)) == template_names(*old(registry)).insert(
                name@,
            ),
            Err(_) => template_names(*final(registry)) == template_names(*old(registry)),
        },
{
    registry.register_template_string(name, source)
}

/// The supplied text that the body is made from, and whether it is HTML:
/// `html` where it is there, else `content`.
pub open spec fn resolved(html: Option<Seq<char>>, content: Option<Seq<char>>) -> Result<
    (Seq<char>, bool),
    ErrorModel,
> {
    match html {
        Some(h) => Ok((h, true)),
        None => match content {
            Some(c) => Ok((c, false)),
            None => Err(ErrorModel::MissingContent),
        },
    }
}

/// The supplied text that the body is made from, and whether it is HTML.
pub fn resolve_content<'a>(html: &'a Option<String>, content: &'a Option<String>) -> (r: Result<
    (&'a str, bool),
    Error,
>)
    ensures
        match r {
            Ok((text, is_html)) => resolved(
                crate::legacy::email::optional_text(*html),
                crate::legacy::email::optional_text(*content),
            ) == Ok::<(Seq<char>, bool), ErrorModel>((text@, is_html)),
            Err(e) => resolved(
                crate::legacy::email::optional_text(*html),
                crate::legacy::email::optional_text(*content),
            ) == Err::<(Seq<char>, bool), ErrorModel>(e@),
        },
{
    match html {
        Some(h) => Ok((h.as_str(), true)),
        None => match content {
            Some(c) => Ok((c.as_str(), false)),
            None => Err(Error::MissingContent),
        },
    }
}

/// The body without a template.
pub fn untemplated_body(content: &str, is_html: bool) -> (body: String)
    ensures
        body@ == untemplated(content@, is_html),
{
    if is_html {
        String::from_str(content)
    } else {
        markdown_to_html(content)
    }
}

/// What a template is given: the text of the body as HTML, and whether it
/// was supplied as HTML.
#[derive(Debug, Clone)]
pub struct ContentData {
    pub is_html: bool,
    pub content: String,
}

/// A rendering that is asked of the template registry: the name of the
/// template, and what it is given.
#[derive(Debug)]
pub struct RenderRequest {
    pub template: String,
    pub data: ContentData,
}

/// A [`RenderRequest`] over sequences of characters.
pub struct RenderRequestModel {
    pub template: Seq<char>,
    pub is_html: bool,
    pub content: Seq<char>,
}

impl View for RenderRequest {
    type V = RenderRequestModel;

    open spec fn view(&self) -> RenderRequestModel {
        RenderRequestModel {
            template: self.template@,
            is_html: self.data.is_html,
            content: self.data.content@,
        }
    }
}

/// The rendering that `content` asks for under `template`: none where no
/// template is asked for; else the template by its name, given the body as
/// it would be without a template.
pub open spec fn rendering_of(template: EmailTemplateTypeLegacy, content: Seq<char>, is_html: bool)
    -> Option<RenderRequestModel> {
    if template == EmailTemplateTypeLegacy::Plain {
        None
    } else {
        Some(
            RenderRequestModel {
                template: template.name(),
                is_html,
                content: untemplated(content, is_html),
            },
        )
    }
}

/// The rendering that `content` asks for under `template`. Plain text is
/// turned into HTML first.
pub fn render_request(template: &EmailTemplateTypeLegacy, content: &str, is_html: bool) -> (r:
    Option<RenderRequest>)
    ensures
        match r {
            Some(request) => rendering_of(*template, content@, is_html) == Some(request@),
            None => rendering_of(*template, content@, is_html) is None,
        },
{
    match template {
        EmailTemplateTypeLegacy::Plain => None,
        _ => Some(
            RenderRequest {
                template: template.to_string(),
                data: ContentData { is_html, content: untemplated_body(content, is_html) },
            },
        ),
    }
}

/// The body without a template: HTML as it is, plain text as the HTML that
/// its markdown gives.
pub open spec fn untemplated(content: Seq<char>, is_html: bool) -> Seq<char> {
    if is_html {
        content
    } else {
        markdown_html(content)
    }
}

/// Calls the `Display` implementation of `handlebars::TemplateError`.
/// Nothing is claimed of the text.
#[verifier::external_body]
pub(crate) fn template_error_text(error: &TemplateError) -> (text: String) {
    error.to_string()
}

/// How the body of a mail came about.
#[derive(Debug)]
pub enum BodyOutcome {
    /// No template was asked for.
    Untemplated(String),
    /// The template rendered.
    Rendered(String),
    /// The template failed to render; the body is the supplied text as it
    /// came, and `failure` says why.
    FallbackUsed { body: String, failure: Error },
}

/// A [`BodyOutcome`] over sequences of characters.
pub enum BodyOutcomeModel {
    Untemplated(Seq<char>),
    Rendered(Seq<char>),
    FallbackUsed { body: Seq<char>, failure: ErrorModel },
}

impl View for BodyOutcome {
    type V = BodyOutcomeModel;

    open spec fn view(&self) -> BodyOutcomeModel {
        match *self {
            BodyOutcome::Untemplated(b) => BodyOutcomeModel::Untemplated(b@),
            BodyOutcome::Rendered(b) => BodyOutcomeModel::Rendered(b@),
            BodyOutcome::FallbackUsed { body, failure } => BodyOutcomeModel::FallbackUsed {
                body: body@,
                failure: failure@,
            },
        }
    }
}

impl BodyOutcomeModel {
    /// The body that goes out.
    pub open spec fn body(self) -> Seq<char> {
        match self {
            BodyOutcomeModel::Untemplated(b) => b,
            BodyOutcomeModel::Rendered(b) => b,
            BodyOutcomeModel::FallbackUsed { body, failure } => body,
        }
    }
}

impl BodyOutcome {
    /// The body that goes out.
    pub fn into_body(self) -> (body: String)
        ensures
            body@ == self@.body(),
    {
        match self {
            BodyOutcome::Untemplated(b) => b,
            BodyOutcome::Rendered(b) => b,
            BodyOutcome::FallbackUsed { body, failure } => body,
        }
    }
}

/// What becomes of a rendering attempt: the rendered text, or on failure
/// the supplied text with the failure noted.
pub open spec fn after_render(content: Seq<char>, rendered: Result<Seq<char>, Seq<char>>)
    -> BodyOutcomeModel {
    match rendered {
        Ok(text) => BodyOutcomeModel::Rendered(text),
        Err(detail) => BodyOutcomeModel::FallbackUsed {
            body: content,
            failure: ErrorModel::TemplateRender(detail),
        },
    }
}

/// A rendering attempt over sequences of characters.
pub open spec fn render_view(rendered: Result<String, String>) -> Result<Seq<char>, Seq<char>> {
    match rendered {
        Ok(text) => Ok(text@),
        Err(detail) => Err(detail@),
    }
}

/// What becomes of a rendering attempt. A failure is never passed on: the
/// supplied text takes the place of the rendered one.
pub fn select_body(content: &str, rendered: Result<String, String>) -> (outcome: BodyOutcome)
    ensures
        outcome@ == after_render(content@, render_view(rendered)),
        outcome@.body() == match rendered {
            Ok(text) => text@,
            Err(_) => content@,
        },
{
    match rendered {
        Ok(text) => BodyOutcome::Rendered(text),
        Err(detail) => BodyOutcome::FallbackUsed {
            body: String::from_str(content),
            failure: Error::TemplateRender(detail),
        },
    }
}

/// A template that fails to render costs the request nothing: the body is
/// then the supplied text as it came.
pub proof fn lemma_failed_rendering_falls_back(content: Seq<char>, detail: Seq<char>)
    ensures
        after_render(content, Err(detail)).body() == content,
        after_render(content, Err(detail)) is FallbackUsed,
{
}

/// The template files, each with the template it is registered as.
pub fn template_files() -> (files: Vec<(EmailTemplateTypeLegacy, &'static str)>)
    ensures
        files@.len() == 2,
        files@[0].0 == EmailTemplateTypeLegacy::Default,
        files@[0].1@ == "default/html.hbs"@,
        files@[1].0 == EmailTemplateTypeLegacy::Metaspexet,
        files@[1].1@ == "metaspexet/html.hbs"@,
{
    let mut files: Vec<(EmailTemplateTypeLegacy, &'static str)> = Vec::new();
    files.push((EmailTemplateTypeLegacy::Default, "default/html.hbs"));
    files.push((EmailTemplateTypeLegacy::Metaspexet, "metaspexet/html.hbs"));
    files
}

/// The failure of a template file that could not be read.
pub open spec fn load_failure(file_name: Seq<char>, detail: Seq<char>) -> ErrorModel {
    ErrorModel::TemplateLoad("Failed to load template file "@ + file_name + ": "@ + detail)
}

/// The failure of a template file that could not be registered.
pub open spec fn register_failure(file_name: Seq<char>, detail: Seq<char>) -> ErrorModel {
    ErrorModel::TemplateLoad("Failed to register template "@ + file_name + ": "@ + detail)
}

/// The failure of a template file that could not be read.
pub fn load_error(file_name: &str, detail: &str) -> (e: Error)
    ensures
        e@ == load_failure(file_name@, detail@),
{
    let mut m = String::from_str("Failed to load template file ");
    m.append(file_name);
    m.append(": ");
    m.append(detail);
    Error::TemplateLoad(m)
}

/// What a registration attempt for the file `file_name` comes to.
pub fn registration_result(file_name: &str, outcome: Result<(), String>) -> (r: Result<(), Error>)
    ensures
        match outcome {
            Ok(_) => r is Ok,
            Err(detail) => r matches Err(e) && e@ == register_failure(file_name@, detail@),
        },
{
    match outcome {
        Ok(_) => Ok(()),
        Err(detail) => {
            let mut m = String::from_str("Failed to register template ");
            m.append(file_name);
            m.append(": ");
            m.append(detail.as_str());
            Err(Error::TemplateLoad(m))
        },
    }
}

/// A file's text, or why it could not be read, over sequences of
/// characters.
pub open spec fn loaded_view(loaded: Result<String, String>) -> Result<Seq<char>, Seq<char>> {
    match loaded {
        Ok(source) => Ok(source@),
        Err(detail) => Err(detail@),
    }
}

/// Whether a file was read and its text is taken as a template.
pub open spec fn loadable(loaded: Result<Seq<char>, Seq<char>>) -> bool {
    loaded matches Ok(source) && template_accepted(source)
}

/// Whether `r` is how loading the file `file_name` fails, where it does: a
/// file that could not be read fails with the reason of that, one whose
/// text is not taken as a template with what the registry said of it.
pub open spec fn failed_loading(
    file_name: Seq<char>,
    loaded: Result<Seq<char>, Seq<char>>,
    r: Result<(), Error>,
) -> bool {
    !loadable(loaded) ==> (r matches Err(e) && match loaded {
        Err(detail) => e@ == load_failure(file_name, detail),
        Ok(_) => exists|detail: Seq<char>| e@ == register_failure(file_name, detail),
    })
}

/// Registers what was read from the file `file_name` as the source of
/// `template`. `loaded` is the file's text, or why it could not be read;
/// in that case the registry is left as it is. The template is registered
/// exactly where the file was read and its text is taken as a template. On
/// success the registry knows the template by its name, beside what it
/// knew; on failure it knows what it knew.
pub fn register_loaded(
    registry: &mut Handlebars<'static>,
    template: &EmailTemplateTypeLegacy,
    file_name: &str,
    loaded: Result<String, String>,
) -> (r: Result<(), Error>)
    ensures
        r is Ok <==> loadable(loaded_view(loaded)),
        failed_loading(file_name@, loaded_view(loaded), r),
        loaded is Err ==> *final(registry) == *old(registry),
        template_names(*final(registry)) == if r is Ok {
            template_names(*old(registry)).insert(template.name())
        } else {
            template_names(*old(registry))
        },
{
    match loaded {
        Err(detail) => Err(load_error(file_name, detail.as_str())),
        Ok(source) => {
            let outcome = match register_source(registry, template.as_str(), source.as_str()) {
                Ok(_) => Ok(()),
                Err(e) => Err(template_error_text(&e)),
            };
            let r = registration_result(file_name, outcome);
            proof {
                if outcome is Err {
                    assert(r->Err_0@ == register_failure(file_name@, outcome->Err_0@));
                }
            }
            r
        },
    }
}

/// Registers the two template files, the default one first, from what was
/// read of each. The first file that could not be read, or whose text is
/// not taken as a template, ends the loading with its failure; what was
/// registered before it stays registered, and nothing after it is.
pub fn load_templates(
    registry: &mut Handlebars<'static>,
    default_file: Result<String, String>,
    metaspexet_file: Result<String, String>,
) -> (r: Result<(), Error>)
    ensures
        r is Ok <==> loadable(loaded_view(default_file)) && loadable(loaded_view(metaspexet_file)),
        !loadable(loaded_view(default_file)) ==> failed_loading(
            "default/html.hbs"@,
            loaded_view(default_file),
            r,
        ) && template_names(*final(registry)) == template_names(*old(registry)),
        loadable(loaded_view(default_file)) && !loadable(loaded_view(metaspexet_file))
            ==> failed_loading("metaspexet/html.hbs"@, loaded_view(metaspexet_file), r)
            && template_names(*final(registry)) == template_names(*old(registry)).insert(
            EmailTemplateTypeLegacy::Default.name(),
        ),
        r is Ok ==> template_names(*final(registry)) == template_names(*old(registry)).insert(
            EmailTemplateTypeLegacy::Default.name(),
        ).insert(EmailTemplateTypeLegacy::Metaspexet.name()),
{
    let files = template_files();
    match register_loaded(registry, &files[0].0, files[0].1, default_file) {
        Err(e) => {
            return Err(e);
        },
        Ok(_) => {},
    }
    register_loaded(registry, &files[1].0, files[1].1, metaspexet_file)
}

} // verus!
