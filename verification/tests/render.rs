use biblio::{
    format_authors, format_filename, process_format_string, sanitize_filename, BiblioResponse,
    RenderContext,
};

fn context(authors: &str, year: &str, title: &str) -> RenderContext {
    let mut ctx = RenderContext::new();
    ctx.set("authors", authors);
    ctx.set("year", year);
    ctx.set("title", title);
    ctx
}

fn metadata(authors: Option<Vec<&str>>, title: Option<&str>, year: Option<&str>) -> BiblioResponse {
    BiblioResponse {
        authors: authors.map(|list| list.into_iter().map(String::from).collect()),
        title: title.map(String::from),
        year: year.map(String::from),
    }
}

#[test]
fn escaped_braces_are_literal() {
    let ctx = context("Doe, J.", "2020", "On Things");
    assert_eq!(process_format_string("{{authors}}", &ctx), "{authors}");
}

#[test]
fn default_template_is_filled() {
    let ctx = context("Doe, J.", "2020", "On Things");
    assert_eq!(
        process_format_string("{authors} ({year}). {title}", &ctx),
        "Doe, J. (2020). On Things"
    );
}

#[test]
fn unknown_placeholder_passes_through() {
    let ctx = context("Doe, J.", "2020", "On Things");
    assert_eq!(process_format_string("{publisher}", &ctx), "{publisher}");
    assert_eq!(
        process_format_string("{title} by {publisher}!", &ctx),
        "On Things by {publisher}!"
    );
}

#[test]
fn empty_context_keeps_every_placeholder() {
    let ctx = RenderContext::new();
    assert_eq!(
        process_format_string("{authors} ({year}). {title}", &ctx),
        "{authors} ({year}). {title}"
    );
}

#[test]
fn empty_template_renders_empty() {
    let ctx = context("A", "B", "C");
    assert_eq!(process_format_string("", &ctx), "");
}

#[test]
fn text_without_braces_is_copied() {
    let ctx = context("A", "B", "C");
    assert_eq!(
        process_format_string("plain: text / with * marks?", &ctx),
        "plain: text / with * marks?"
    );
}

#[test]
fn lone_closing_brace_is_literal() {
    let ctx = context("A", "B", "C");
    assert_eq!(process_format_string("a}b", &ctx), "a}b");
    assert_eq!(process_format_string("}", &ctx), "}");
}

#[test]
fn doubled_closing_brace_is_one() {
    let ctx = context("A", "B", "C");
    assert_eq!(process_format_string("a}}b", &ctx), "a}b");
    assert_eq!(process_format_string("}}}", &ctx), "}}");
}

#[test]
fn doubled_opening_brace_is_one() {
    let ctx = context("A", "B", "C");
    assert_eq!(process_format_string("{{", &ctx), "{");
    assert_eq!(process_format_string("{{{title}}}", &ctx), "{C}");
}

#[test]
fn empty_placeholder_is_kept() {
    let ctx = context("A", "B", "C");
    assert_eq!(process_format_string("{}", &ctx), "{}");
}

#[test]
fn open_placeholder_at_the_end_is_closed_there() {
    let ctx = context("A", "B", "C");
    assert_eq!(process_format_string("x {title", &ctx), "x C");
    assert_eq!(process_format_string("x {other", &ctx), "x {other}");
    assert_eq!(process_format_string("x {", &ctx), "x {}");
}

#[test]
fn brace_inside_a_name_belongs_to_the_name() {
    let ctx = context("A", "B", "C");
    assert_eq!(process_format_string("{a{b}", &ctx), "{a{b}");
    assert_eq!(process_format_string("{a{title}}", &ctx), "{a{title}}");
}

#[test]
fn names_are_matched_exactly() {
    let ctx = context("A", "B", "C");
    assert_eq!(process_format_string("{Title}{ title}{title }", &ctx), "{Title}{ title}{title }");
}

#[test]
fn later_value_replaces_earlier() {
    let mut ctx = RenderContext::new();
    ctx.set("title", "first");
    ctx.set("title", "second");
    assert_eq!(process_format_string("{title}", &ctx), "second");
    assert_eq!(ctx.get("title").map(String::as_str), Some("second"));
    assert_eq!(ctx.get("year"), None);
}

#[test]
fn context_values_are_sanitized() {
    let mut ctx = RenderContext::new();
    ctx.set("title", "a/b\\c");
    assert_eq!(ctx.get("title").map(String::as_str), Some("a_b_c"));
    assert_eq!(process_format_string("{title}/{title}", &ctx), "a_b_c/a_b_c");
}

#[test]
fn sanitize_replaces_each_hostile_character() {
    assert_eq!(sanitize_filename("<>:\"/\\|?*"), "_________");
    assert_eq!(sanitize_filename("a<b>c:d\"e/f\\g|h?i*j"), "a_b_c_d_e_f_g_h_i_j");
}

#[test]
fn sanitize_keeps_everything_else() {
    assert_eq!(sanitize_filename(""), "");
    assert_eq!(sanitize_filename("Doe, J. (2020) & co_{x}"), "Doe, J. (2020) & co_{x}");
    assert_eq!(sanitize_filename("Émile Zola — 日本語"), "Émile Zola — 日本語");
}

#[test]
fn sanitize_is_idempotent() {
    let once = sanitize_filename("What? Why: how*");
    assert_eq!(once, "What_ Why_ how_");
    assert_eq!(sanitize_filename(&once), once);
}

#[test]
fn no_authors_is_unknown_author() {
    assert_eq!(format_authors(&None), "Unknown Author");
    assert_eq!(format_authors(&Some(vec![])), "Unknown Author");
}

#[test]
fn one_author_is_verbatim() {
    assert_eq!(format_authors(&Some(vec!["Doe, J.".to_string()])), "Doe, J.");
}

#[test]
fn two_authors_are_joined() {
    let authors = Some(vec!["A".to_string(), "B".to_string()]);
    assert_eq!(format_authors(&authors), "A & B");
}

#[test]
fn three_or_more_authors_are_abbreviated() {
    let three = Some(vec!["A".to_string(), "B".to_string(), "C".to_string()]);
    assert_eq!(format_authors(&three), "A et al.");
    let five: Vec<String> = ["V", "W", "X", "Y", "Z"].iter().map(|s| s.to_string()).collect();
    assert_eq!(format_authors(&Some(five)), "V et al.");
}

#[test]
fn filename_from_full_metadata() {
    let data = metadata(Some(vec!["Doe, J."]), Some("On Things"), Some("2020"));
    assert_eq!(format_filename(&data, "{authors} ({year}). {title}"), "Doe, J. (2020). On Things");
}

#[test]
fn filename_from_empty_metadata_uses_defaults() {
    let data = metadata(None, None, None);
    assert_eq!(
        format_filename(&data, "{authors} ({year}). {title}"),
        "Unknown Author (Unknown Year). Untitled"
    );
}

#[test]
fn filename_sanitizes_values_but_not_the_template() {
    let data = metadata(Some(vec!["Doe, J."]), Some("Things: a *new* look"), Some("2020"));
    assert_eq!(
        format_filename(&data, "{year}: {title}"),
        "2020: Things_ a _new_ look"
    );
}

#[test]
fn filename_sanitizes_authors_after_joining() {
    let data = metadata(Some(vec!["A/B", "C|D"]), None, Some("19?9"));
    assert_eq!(format_filename(&data, "{authors} {year}"), "A_B & C_D 19_9");
}

#[test]
fn filename_keeps_unknown_placeholder() {
    let data = metadata(Some(vec!["A", "B", "C"]), Some("T"), None);
    assert_eq!(
        format_filename(&data, "{authors} - {title} - {publisher} - {year}"),
        "A et al. - T - {publisher} - Unknown Year"
    );
}

#[test]
fn filename_with_escapes_around_a_value() {
    let data = metadata(None, Some("T"), None);
    assert_eq!(format_filename(&data, "{{{title}}} {{title}}"), "{T} {title}");
}
