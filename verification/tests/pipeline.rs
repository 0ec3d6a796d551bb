use handlebars::Handlebars;
use mail_relay::attachment::{
    decode_all, decode_attachment, decoding_result, encoding_of, AttachmentEncoding,
};
use mail_relay::content::{
    load_error, load_templates, register_loaded, registration_result, render_request,
    resolve_content, select_body, template_files, untemplated_body, BodyOutcome, RenderRequest,
};
use mail_relay::domain::{guard_address, guard_sender, VerifiedDomains};
use mail_relay::error::Error;
use mail_relay::legacy::email::{
    AddressFieldLegacy, AddressFieldsLegacy, AttachmentLegacy, EmailNameLegacy,
    EmailRequestLegacy, EmailTemplateTypeLegacy,
};
use mail_relay::message::{assemble, envelope, prepare, Assembled, Envelope};

fn bare(address: &str) -> AddressFieldLegacy {
    AddressFieldLegacy::Address(address.to_string())
}

fn attachment(encoding: &str, buffer: &str) -> AttachmentLegacy {
    AttachmentLegacy {
        original_name: "document.pdf".to_string(),
        mimetype: "application/pdf".to_string(),
        buffer: buffer.to_string(),
        encoding: encoding.to_string(),
    }
}

fn plain_request() -> EmailRequestLegacy {
    EmailRequestLegacy {
        key: "mykey123".to_string(),
        template: EmailTemplateTypeLegacy::Plain,
        from: bare("sender@datasektionen.se"),
        reply_to: None,
        to: None,
        subject: "Hello".to_string(),
        content: None,
        html: Some("<p>Test</p>".to_string()),
        cc: None,
        bcc: None,
        attachments: None,
    }
}

fn render(registry: &Handlebars<'static>, request: &RenderRequest) -> Result<String, String> {
    let mut data = serde_json::Map::new();
    data.insert("is_html".to_string(), serde_json::Value::Bool(request.data.is_html));
    data.insert(
        "content".to_string(),
        serde_json::Value::String(request.data.content.clone()),
    );
    registry.render(&request.template, &data).map_err(|e| e.to_string())
}

fn render_template(
    registry: &Handlebars<'static>,
    template: &EmailTemplateTypeLegacy,
    content: String,
    is_html: bool,
) -> Result<String, String> {
    let request = render_request(template, &content, is_html).expect("a template is asked for");
    render(registry, &request)
}

fn resolve_body(
    registry: &Handlebars<'static>,
    template: &EmailTemplateTypeLegacy,
    content: &str,
    is_html: bool,
) -> BodyOutcome {
    match render_request(template, content, is_html) {
        None => BodyOutcome::Untemplated(untemplated_body(content, is_html)),
        Some(request) => select_body(content, render(registry, &request)),
    }
}

fn build_message(
    registry: &Handlebars<'static>,
    request: &EmailRequestLegacy,
) -> Result<Assembled, Error> {
    let ready = prepare(request)?;
    Ok(match ready.rendering() {
        None => ready.complete_untemplated(),
        Some(asked) => {
            let rendered = render(registry, &asked);
            ready.complete(rendered)
        }
    })
}

fn registry() -> Handlebars<'static> {
    let mut registry = Handlebars::new();
    register_loaded(
        &mut registry,
        &EmailTemplateTypeLegacy::Default,
        "default/html.hbs",
        Ok("<main>{{{content}}}</main>{{#if is_html}}<i>html</i>{{/if}}".to_string()),
    )
    .unwrap();
    registry
}

fn domain_failure<T: std::fmt::Debug>(r: Result<T, Error>) -> String {
    match r {
        Err(Error::InvalidEmailDomain(domain)) => domain,
        other => panic!("expected an invalid domain, got {:?}", other),
    }
}

fn attachment_failure<T: std::fmt::Debug>(r: Result<T, Error>) -> String {
    match r {
        Err(Error::Attachment(detail)) => detail,
        other => panic!("expected an attachment failure, got {:?}", other),
    }
}

#[test]
fn listed_domains_pass_the_guard() {
    assert_eq!(guard_address("a@metaspexet.se").unwrap(), VerifiedDomains::Metaspexet);
    assert_eq!(guard_address("a@datasektionen.se").unwrap(), VerifiedDomains::Datasektionen);
    assert_eq!(guard_address("a@ddagen.se").unwrap(), VerifiedDomains::Ddagen);
    assert_eq!(guard_address("  a@b@ddagen.se \n").unwrap(), VerifiedDomains::Ddagen);
    assert_eq!(
        VerifiedDomains::try_from("ddagen.se".to_string()).unwrap(),
        VerifiedDomains::Ddagen
    );
}

#[test]
fn unlisted_domain_fails_under_its_name() {
    assert_eq!(domain_failure(guard_address("sender@example.com")), "example.com");
    assert_eq!(domain_failure(guard_address("sender@Datasektionen.se")), "Datasektionen.se");
    assert_eq!(domain_failure(guard_address("sender@datasektionen.se>")), "datasektionen.se>");
    assert_eq!(domain_failure(guard_address("sender@")), "");
    assert_eq!(
        domain_failure(VerifiedDomains::try_from("example.com".to_string())),
        "example.com"
    );
}

#[test]
fn address_without_at_sign_has_no_domain() {
    assert_eq!(domain_failure(guard_address("datasektionen.se")), "missing domain");
    assert_eq!(domain_failure(guard_address("")), "missing domain");
}

#[test]
fn guard_reads_the_address_of_a_pair() {
    let pair = AddressFieldLegacy::NameAndAddress(EmailNameLegacy {
        name: "x@example.com".to_string(),
        address: "john@datasektionen.se".to_string(),
    });
    assert_eq!(guard_sender(&pair).unwrap(), VerifiedDomains::Datasektionen);
    assert_eq!(domain_failure(guard_sender(&bare("John <john@datasektionen.se>"))),
        "datasektionen.se>");
}

#[test]
fn sender_outside_the_list_fails_before_anything_else() {
    let mut request = plain_request();
    request.from = bare("sender@example.com");
    request.html = None;
    request.to = Some(AddressFieldsLegacy::AddressField(bare("ö@x.se")));
    request.attachments = Some(vec![attachment("rot13", "")]);
    assert_eq!(domain_failure(envelope(&request)), "example.com");
    assert_eq!(domain_failure(build_message(&Handlebars::new(), &request)), "example.com");
}

#[test]
fn html_wins_over_content() {
    let html = Some("<p>h</p>".to_string());
    let content = Some("c".to_string());
    assert_eq!(resolve_content(&html, &content).unwrap(), ("<p>h</p>", true));
    assert_eq!(resolve_content(&None, &content).unwrap(), ("c", false));
    assert!(matches!(resolve_content(&None, &None), Err(Error::MissingContent)));
}

#[test]
fn request_without_content_gives_no_message() {
    let mut request = plain_request();
    request.html = None;
    assert!(matches!(envelope(&request), Err(Error::MissingContent)));
    for template in [
        EmailTemplateTypeLegacy::Plain,
        EmailTemplateTypeLegacy::Default,
        EmailTemplateTypeLegacy::Metaspexet,
    ] {
        request.template = template;
        assert!(matches!(build_message(&registry(), &request), Err(Error::MissingContent)));
    }
}

#[test]
fn address_failures_come_in_order() {
    let bad = |detail: &str| {
        Some(AddressFieldsLegacy::AddressField(AddressFieldLegacy::NameAndAddress(
            EmailNameLegacy { name: detail.to_string(), address: "ö@x.se".to_string() },
        )))
    };
    let mut request = plain_request();
    request.html = None;
    request.reply_to = Some(AddressFieldsLegacy::AddressField(bare("ö@x.se")));
    assert!(matches!(envelope(&request), Err(Error::NotASCII(d)) if d
        == "is not ASCII and is not in Name <addr> format"));
    request.bcc = Some(AddressFieldsLegacy::AddressField(bare("N <ö@x.se>")));
    assert!(matches!(envelope(&request), Err(Error::NotASCII(d)) if d == "address is not ASCII"));
    request.cc = bad("cc");
    assert!(matches!(envelope(&request), Err(Error::NotASCII(d)) if d == "address field"));
    request.to = Some(AddressFieldsLegacy::AddressField(bare("N <ö@x.se>")));
    assert!(matches!(envelope(&request), Err(Error::NotASCII(d)) if d == "address is not ASCII"));
    request.from = bare("ö@datasektionen.se");
    assert!(matches!(envelope(&request), Err(Error::NotASCII(d)) if d
        == "is not ASCII and is not in Name <addr> format"));
}

#[test]
fn markdown_becomes_html() {
    assert_eq!(untemplated_body("# Hi Mercury!", false), "<h1>Hi Mercury!</h1>");
    assert_eq!(untemplated_body("# Hi Mercury!", true), "# Hi Mercury!");
}

#[test]
fn without_template_the_body_is_the_content() {
    let registry = registry();
    let outcome = resolve_body(&registry, &EmailTemplateTypeLegacy::Plain, "<p>x</p>", true);
    assert!(matches!(&outcome, BodyOutcome::Untemplated(b) if b == "<p>x</p>"));
    let outcome = resolve_body(&registry, &EmailTemplateTypeLegacy::Plain, "*x*", false);
    assert!(matches!(&outcome, BodyOutcome::Untemplated(b) if b == "<p><em>x</em></p>"));
    assert_eq!(outcome.into_body(), "<p><em>x</em></p>");
}

#[test]
fn template_renders_html_and_markdown() {
    let registry = registry();
    assert_eq!(
        render_template(&registry, &EmailTemplateTypeLegacy::Default, "<p>x</p>".to_string(), true)
            .unwrap(),
        "<main><p>x</p></main><i>html</i>"
    );
    let outcome = resolve_body(&registry, &EmailTemplateTypeLegacy::Default, "*x*", false);
    assert!(matches!(&outcome, BodyOutcome::Rendered(b) if b == "<main><p><em>x</em></p></main>"));
}

#[test]
fn failed_rendering_falls_back_to_the_content() {
    let registry = registry();
    assert!(render_template(
        &registry,
        &EmailTemplateTypeLegacy::Metaspexet,
        "*x*".to_string(),
        false
    )
    .is_err());
    let outcome = resolve_body(&registry, &EmailTemplateTypeLegacy::Metaspexet, "*x*", false);
    match &outcome {
        BodyOutcome::FallbackUsed { body, failure } => {
            assert_eq!(body, "*x*");
            assert!(matches!(failure, Error::TemplateRender(_)));
        }
        other => panic!("expected the fallback, got {:?}", other),
    }
    assert_eq!(outcome.into_body(), "*x*");
}

#[test]
fn failed_rendering_does_not_fail_the_request() {
    let mut request = plain_request();
    request.template = EmailTemplateTypeLegacy::Metaspexet;
    request.html = None;
    request.content = Some("*x*".to_string());
    let done = build_message(&registry(), &request).unwrap();
    assert_eq!(done.message.html_body, "*x*");
    assert!(matches!(done.render_failure, Some(Error::TemplateRender(_))));
}

#[test]
fn outcome_of_a_rendering_attempt() {
    assert!(matches!(
        select_body("c", Ok("<b>c</b>".to_string())),
        BodyOutcome::Rendered(b) if b == "<b>c</b>"
    ));
    match select_body("c", Err("no such template".to_string())) {
        BodyOutcome::FallbackUsed { body, failure } => {
            assert_eq!(body, "c");
            assert_eq!(failure.to_string(), "Failed to render template: no such template");
        }
        other => panic!("expected the fallback, got {:?}", other),
    }
}

#[test]
fn template_files_are_the_two_known_ones() {
    assert_eq!(
        template_files(),
        vec![
            (EmailTemplateTypeLegacy::Default, "default/html.hbs"),
            (EmailTemplateTypeLegacy::Metaspexet, "metaspexet/html.hbs"),
        ]
    );
}

#[test]
fn unreadable_template_file_is_a_load_failure() {
    let mut registry = Handlebars::new();
    let r = register_loaded(
        &mut registry,
        &EmailTemplateTypeLegacy::Default,
        "default/html.hbs",
        Err("No such file or directory (os error 2)".to_string()),
    );
    match r {
        Err(Error::TemplateLoad(detail)) => assert_eq!(
            detail,
            "Failed to load template file default/html.hbs: No such file or directory (os error 2)"
        ),
        other => panic!("expected a load failure, got {:?}", other),
    }
    assert!(!registry.has_template("default"));
    assert_eq!(
        load_error("f", "d").to_string(),
        "Failed to load template: Failed to load template file f: d"
    );
}

#[test]
fn template_that_does_not_parse_is_a_load_failure() {
    let mut registry = Handlebars::new();
    let r = register_loaded(
        &mut registry,
        &EmailTemplateTypeLegacy::Metaspexet,
        "metaspexet/html.hbs",
        Ok("{{#if}}".to_string()),
    );
    match r {
        Err(Error::TemplateLoad(detail)) => {
            assert!(detail.starts_with("Failed to register template metaspexet/html.hbs: "))
        }
        other => panic!("expected a load failure, got {:?}", other),
    }
    assert!(!registry.has_template("metaspexet"));
    assert!(matches!(
        registration_result("f", Err("d".to_string())),
        Err(Error::TemplateLoad(m)) if m == "Failed to register template f: d"
    ));
    assert!(registration_result("f", Ok(())).is_ok());
}

#[test]
fn registered_template_goes_by_the_template_name() {
    let mut registry = Handlebars::new();
    register_loaded(
        &mut registry,
        &EmailTemplateTypeLegacy::Metaspexet,
        "metaspexet/html.hbs",
        Ok("x".to_string()),
    )
    .unwrap();
    assert!(registry.has_template("metaspexet"));
}

#[test]
fn encoding_tags_whatever_their_case() {
    for tag in ["base64", "BASE64", "Base64", "bAsE64"] {
        assert_eq!(encoding_of(tag), Some(AttachmentEncoding::Base64));
    }
    for tag in ["utf-8", "utf8", "UTF-8", "UTF8", "Utf-8"] {
        assert_eq!(encoding_of(tag), Some(AttachmentEncoding::Utf8));
    }
    for tag in ["", "base32", "utf-16", " base64", "binary", "7bit"] {
        assert_eq!(encoding_of(tag), None);
    }
}

#[test]
fn base64_attachment_is_decoded() {
    assert_eq!(decode_attachment(&attachment("base64", "JVBERi0xLjQ=")).unwrap(), b"%PDF-1.4");
    assert_eq!(decode_attachment(&attachment("BASE64", "")).unwrap(), b"");
}

#[test]
fn text_attachment_passes_through() {
    assert_eq!(
        decode_attachment(&attachment("utf-8", "JVBERi0xLjQ=")).unwrap(),
        b"JVBERi0xLjQ="
    );
    assert_eq!(decode_attachment(&attachment("UTF8", "åäö")).unwrap(), "åäö".as_bytes());
}

#[test]
fn unknown_encoding_is_rejected_whatever_the_buffer_holds() {
    for buffer in ["", "JVBERi0xLjQ=", "not base64 at all", "åäö"] {
        assert_eq!(
            attachment_failure(decode_attachment(&attachment("rot13", buffer))),
            "Unsupported attachment encoding: rot13"
        );
    }
}

#[test]
fn payload_that_is_not_base64_is_rejected() {
    let detail = attachment_failure(decode_attachment(&attachment("base64", "not base64!")));
    assert!(detail.starts_with("Failed to decode attachment document.pdf: "));
    assert!(detail.len() > "Failed to decode attachment document.pdf: ".len());
    assert_eq!(
        attachment_failure(decoding_result(&attachment("base64", ""), Err("why".to_string()))),
        "Failed to decode attachment document.pdf: why"
    );
    assert_eq!(decoding_result(&attachment("base64", ""), Ok(vec![1, 2])).unwrap(), vec![1, 2]);
}

#[test]
fn attachments_are_all_or_nothing() {
    let files =
        decode_all(&vec![attachment("base64", "JVBERi0xLjQ="), attachment("utf8", "x")]).unwrap();
    assert_eq!(files.len(), 2);
    assert_eq!(files[0].file_name, "document.pdf");
    assert_eq!(files[0].content_type, "application/pdf");
    assert_eq!(files[0].data, b"%PDF-1.4");
    assert_eq!(files[1].data, b"x");
    assert_eq!(
        attachment_failure(decode_all(&vec![
            attachment("base64", "JVBERi0xLjQ="),
            attachment("rot13", "x"),
            attachment("base64", "not base64!"),
        ])),
        "Unsupported attachment encoding: rot13"
    );
    assert!(decode_all(&vec![]).unwrap().is_empty());
}

#[test]
fn bad_attachment_fails_the_request() {
    let mut request = plain_request();
    request.attachments = Some(vec![attachment("rot13", "x")]);
    assert_eq!(
        attachment_failure(build_message(&registry(), &request)),
        "Unsupported attachment encoding: rot13"
    );
    request.html = None;
    assert!(matches!(build_message(&registry(), &request), Err(Error::MissingContent)));
}

#[test]
fn parts_are_put_together_as_they_are() {
    let envelope = Envelope {
        from: "f@x.se".to_string(),
        to: Some(vec!["t@x.se".to_string()]),
        cc: None,
        bcc: Some(vec![]),
        reply_to: Some("r@x.se".to_string()),
        content: "ignored".to_string(),
        is_html: false,
    };
    let message = assemble(envelope, " Subject ".to_string(), "<p>b</p>".to_string(), None);
    assert_eq!(message.from, "f@x.se");
    assert_eq!(message.to, Some(vec!["t@x.se".to_string()]));
    assert_eq!(message.cc, None);
    assert_eq!(message.bcc, Some(vec![]));
    assert_eq!(message.reply_to, Some("r@x.se".to_string()));
    assert_eq!(message.subject, " Subject ");
    assert_eq!(message.html_body, "<p>b</p>");
    assert!(message.attachments.is_none());
}

#[test]
fn whole_request_becomes_a_message() {
    let request = EmailRequestLegacy {
        key: "mykey123".to_string(),
        template: EmailTemplateTypeLegacy::Default,
        from: bare("åäö <sender@datasektionen.se"),
        reply_to: Some(AddressFieldsLegacy::AddressList(vec![bare("r1@x.se"), bare("r2@x.se")])),
        to: Some(AddressFieldsLegacy::AddressList(vec![bare("a@x.se"), bare("Name <b@x.se>")])),
        subject: "Hello World".to_string(),
        content: Some("*plain*".to_string()),
        html: None,
        cc: None,
        bcc: Some(AddressFieldsLegacy::AddressField(bare("bcc@x.se"))),
        attachments: Some(vec![attachment("base64", "JVBERi0xLjQ=")]),
    };
    assert!(request.fits());
    let done = build_message(&registry(), &request).unwrap();
    assert!(done.render_failure.is_none());
    let message = done.message;
    assert_eq!(message.from, "=?UTF-8?B?w6XDpMO2?= <sender@datasektionen.se>");
    assert_eq!(message.to, Some(vec!["a@x.se".to_string(), "Name <b@x.se>".to_string()]));
    assert_eq!(message.cc, None);
    assert_eq!(message.bcc, Some(vec!["bcc@x.se".to_string()]));
    assert_eq!(message.reply_to, Some("r1@x.se".to_string()));
    assert_eq!(message.subject, "Hello World");
    assert_eq!(message.html_body, "<main><p><em>plain</em></p></main>");
    let files = message.attachments.unwrap();
    assert_eq!(files.len(), 1);
    assert_eq!(files[0].data, b"%PDF-1.4");
}

#[test]
fn template_unknown_to_the_registry_never_renders() {
    let empty = Handlebars::new();
    for template in [EmailTemplateTypeLegacy::Default, EmailTemplateTypeLegacy::Metaspexet] {
        for (content, is_html) in [("<p>x</p>", true), ("*x*", false), ("", false)] {
            assert!(render_template(&empty, &template, content.to_string(), is_html).is_err());
            let outcome = resolve_body(&empty, &template, content, is_html);
            assert!(matches!(&outcome, BodyOutcome::FallbackUsed { body, .. } if body == content));
        }
    }
}

#[test]
fn registering_adds_one_name_and_keeps_the_others() {
    let mut registry = Handlebars::new();
    register_loaded(
        &mut registry,
        &EmailTemplateTypeLegacy::Default,
        "default/html.hbs",
        Ok("a".to_string()),
    )
    .unwrap();
    assert!(registry.has_template("default"));
    assert!(!registry.has_template("metaspexet"));
    register_loaded(
        &mut registry,
        &EmailTemplateTypeLegacy::Metaspexet,
        "metaspexet/html.hbs",
        Ok("b".to_string()),
    )
    .unwrap();
    assert!(registry.has_template("default"));
    assert!(registry.has_template("metaspexet"));
    assert!(register_loaded(
        &mut registry,
        &EmailTemplateTypeLegacy::Default,
        "default/html.hbs",
        Ok("{{#if}}".to_string()),
    )
    .is_err());
    assert!(registry.has_template("default"));
    assert!(registry.has_template("metaspexet"));
    assert_eq!(
        render_template(&registry, &EmailTemplateTypeLegacy::Default, "x".to_string(), true)
            .unwrap(),
        "a"
    );
}

#[test]
fn empty_destination_list_fails_the_request() {
    let mut request = plain_request();
    request.to = Some(AddressFieldsLegacy::AddressList(vec![]));
    assert!(matches!(envelope(&request), Err(Error::NotASCII(d)) if d == "address list is empty"));
    request.to = None;
    request.reply_to = Some(AddressFieldsLegacy::AddressList(vec![]));
    assert!(matches!(envelope(&request), Err(Error::NotASCII(d)) if d == "address list is empty"));
    request.reply_to = None;
    assert!(envelope(&request).is_ok());
}

fn load_failure(r: Result<(), Error>) -> String {
    match r {
        Err(Error::TemplateLoad(detail)) => detail,
        other => panic!("expected a load failure, got {:?}", other),
    }
}

#[test]
fn both_template_files_are_registered() {
    let mut registry = Handlebars::new();
    load_templates(&mut registry, Ok("d{{content}}".to_string()), Ok("m".to_string())).unwrap();
    assert!(registry.has_template("default"));
    assert!(registry.has_template("metaspexet"));
    assert_eq!(
        render_template(&registry, &EmailTemplateTypeLegacy::Metaspexet, "x".to_string(), true)
            .unwrap(),
        "m"
    );
}

#[test]
fn first_template_file_that_fails_ends_the_loading() {
    let gone = || Err("No such file or directory (os error 2)".to_string());
    let good = || Ok("x".to_string());
    let bad = || Ok("{{#if}}".to_string());

    let mut registry = Handlebars::new();
    assert_eq!(
        load_failure(load_templates(&mut registry, gone(), gone())),
        "Failed to load template file default/html.hbs: No such file or directory (os error 2)"
    );
    assert!(!registry.has_template("default") && !registry.has_template("metaspexet"));

    let mut registry = Handlebars::new();
    assert!(load_failure(load_templates(&mut registry, bad(), good()))
        .starts_with("Failed to register template default/html.hbs: "));
    assert!(!registry.has_template("default") && !registry.has_template("metaspexet"));

    let mut registry = Handlebars::new();
    assert_eq!(
        load_failure(load_templates(&mut registry, good(), gone())),
        "Failed to load template file metaspexet/html.hbs: No such file or directory (os error 2)"
    );
    assert!(registry.has_template("default") && !registry.has_template("metaspexet"));

    let mut registry = Handlebars::new();
    assert!(load_failure(load_templates(&mut registry, good(), bad()))
        .starts_with("Failed to register template metaspexet/html.hbs: "));
    assert!(registry.has_template("default") && !registry.has_template("metaspexet"));
}

#[test]
fn template_is_asked_for_the_body_as_html() {
    assert!(render_request(&EmailTemplateTypeLegacy::Plain, "*x*", false).is_none());
    let asked = render_request(&EmailTemplateTypeLegacy::Default, "*x*", false).unwrap();
    assert_eq!(asked.template, "default");
    assert!(!asked.data.is_html);
    assert_eq!(asked.data.content, "<p><em>x</em></p>");
    let asked = render_request(&EmailTemplateTypeLegacy::Metaspexet, "<b>x</b>", true).unwrap();
    assert_eq!(asked.template, "metaspexet");
    assert!(asked.data.is_html);
    assert_eq!(asked.data.content, "<b>x</b>");
}

#[test]
fn prepared_request_is_completed_with_either_outcome() {
    let mut request = plain_request();
    request.template = EmailTemplateTypeLegacy::Default;
    request.html = None;
    request.content = Some("*x*".to_string());

    let ready = prepare(&request).unwrap();
    assert_eq!(ready.subject, "Hello");
    assert_eq!(ready.template, EmailTemplateTypeLegacy::Default);
    assert_eq!(ready.envelope.content, "*x*");
    assert!(ready.rendering().is_some());
    let done = ready.complete(Ok("<main>x</main>".to_string()));
    assert_eq!(done.message.html_body, "<main>x</main>");
    assert!(done.render_failure.is_none());

    let done = prepare(&request).unwrap().complete(Err("no such template".to_string()));
    assert_eq!(done.message.html_body, "*x*");
    assert!(matches!(done.render_failure, Some(Error::TemplateRender(d)) if d == "no such template"));

    let done = prepare(&request).unwrap().complete_untemplated();
    assert_eq!(done.message.html_body, "<p><em>x</em></p>");
    assert!(done.render_failure.is_none());

    request.template = EmailTemplateTypeLegacy::Plain;
    assert!(prepare(&request).unwrap().rendering().is_none());
}
