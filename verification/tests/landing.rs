use download_stats::landing::{page_for, HTML, LANDING_TEMPLATE, PLAIN_TEXT, TEMPLATE_ERROR};

fn templates_with(name: &str, text: &str) -> tera::Tera {
    let mut templates = tera::Tera::default();
    templates.add_raw_template(name, text).unwrap();
    templates
}

fn rendered(templates: &tera::Tera) -> Result<String, tera::Error> {
    templates.render(LANDING_TEMPLATE, &tera::Context::new())
}

#[test]
fn test_index() {
    let templates = templates_with("index.html", "<h1>Downloads</h1>");
    let page = page_for(rendered(&templates));
    assert_eq!(page.status(), 200);
}

#[test]
fn the_landing_page_is_the_rendered_template() {
    let templates = templates_with("index.html", "<h1>{{ 1 + 2 }} downloads</h1>");
    let page = page_for(rendered(&templates));
    assert_eq!(page.status(), 200);
    assert_eq!(page.content_type(), "text/html");
    assert_eq!(page.body(), "<h1>3 downloads</h1>");
}

#[test]
fn a_missing_template_is_a_500_with_a_fixed_note() {
    let page = page_for(rendered(&tera::Tera::default()));
    assert_eq!(page.status(), 500);
    assert_eq!(page.content_type(), "text/plain; charset=utf-8");
    assert_eq!(page.body(), "template error");

    let page = page_for(rendered(&templates_with("other.html", "<p>other</p>")));
    assert_eq!(page.status(), 500);
}

#[test]
fn a_template_that_fails_to_render_is_a_500() {
    let templates = templates_with("index.html", "<h1>{{ missing }}</h1>");
    let page = page_for(rendered(&templates));
    assert_eq!(page.status(), 500);
    assert_eq!(page.body(), "template error");
}

#[test]
fn a_page_shows_what_was_rendered() {
    let page = page_for(Ok("<p>hello</p>".to_string()));
    assert_eq!(page.status(), 200);
    assert_eq!(page.content_type(), HTML);
    assert_eq!(page.body(), "<p>hello</p>");

    let page = page_for(Ok(String::new()));
    assert_eq!(page.status(), 200);
    assert_eq!(page.body(), "");
}

#[test]
fn a_page_tells_nothing_of_the_cause() {
    let page = page_for(Err(tera::Error::msg("secret cause")));
    assert_eq!(page.status(), 500);
    assert_eq!(page.content_type(), PLAIN_TEXT);
    assert_eq!(page.body(), TEMPLATE_ERROR);
    assert!(!page.body().contains("secret cause"));
}

#[test]
fn the_landing_template_is_the_index() {
    assert_eq!(LANDING_TEMPLATE, "index.html");
}
