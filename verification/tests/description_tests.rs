use immich_describer::{build_description, join_user_descriptions, parse_description};

fn parts(d: &str) -> (String, String, String) {
    let p = parse_description(d);
    (p.pre_user, p.ai_content, p.post_user)
}

fn owned(a: &str, b: &str, c: &str) -> (String, String, String) {
    (a.to_string(), b.to_string(), c.to_string())
}

#[test]
fn parse_without_ai_block_keeps_everything_as_user_text() {
    assert_eq!(parts("  Holiday at the lake \n"), owned("Holiday at the lake", "", ""));
}

#[test]
fn parse_empty_description() {
    assert_eq!(parts(""), owned("", "", ""));
}

#[test]
fn parse_full_description() {
    let d = "My note\n[AI]\nA dog on a beach.\n[/AI]\nTaken by Ann";
    assert_eq!(parts(d), owned("My note", "A dog on a beach.", "Taken by Ann"));
}

#[test]
fn parse_block_only() {
    assert_eq!(parts("[AI]\nSunset\n[/AI]"), owned("", "Sunset", ""));
}

#[test]
fn parse_unclosed_block_takes_rest_as_ai_content() {
    assert_eq!(parts("before [AI] generated text  "), owned("before", "generated text", ""));
}

#[test]
fn parse_uses_first_tags() {
    let d = "a[AI]b[/AI]c[AI]d[/AI]e";
    assert_eq!(parts(d), owned("a", "b", "c[AI]d[/AI]e"));
}

#[test]
fn parse_trims_unicode_whitespace() {
    let d = "\u{3000}Notiz\u{00a0}[AI]\u{2003}KI\u{2028}[/AI]\u{85}Ende\t";
    assert_eq!(parts(d), owned("Notiz", "KI", "Ende"));
}

#[test]
fn parse_non_ascii_text() {
    let d = "Zürich 🏔️\n[AI]\nSchnee über den Gipfeln\n[/AI]";
    assert_eq!(parts(d), owned("Zürich 🏔️", "Schnee über den Gipfeln", ""));
}

#[test]
fn build_with_both_user_parts() {
    assert_eq!(build_description("pre", "ai", "post"), "pre\n[AI]\nai\n[/AI]\npost");
}

#[test]
fn build_with_pre_only() {
    assert_eq!(build_description("pre", "ai", ""), "pre\n[AI]\nai\n[/AI]");
}

#[test]
fn build_with_post_only() {
    assert_eq!(build_description("", "ai", "post"), "[AI]\nai\n[/AI]\npost");
}

#[test]
fn build_without_user_parts() {
    assert_eq!(build_description("", "ai", ""), "[AI]\nai\n[/AI]");
}

#[test]
fn build_with_empty_ai_content() {
    assert_eq!(build_description("x", "", "y"), "x\n[AI]\n\n[/AI]\ny");
}

#[test]
fn join_both_parts() {
    assert_eq!(join_user_descriptions("a", "b"), "a\nb");
}

#[test]
fn join_pre_only() {
    assert_eq!(join_user_descriptions("a", ""), "a");
}

#[test]
fn join_post_only() {
    assert_eq!(join_user_descriptions("", "b"), "b");
}

#[test]
fn join_neither() {
    assert_eq!(join_user_descriptions("", ""), "");
}

#[test]
fn parse_of_build_gives_back_trimmed_parts() {
    let built = build_description("  my words ", " new caption\n", "\tcredits ");
    assert_eq!(parts(&built), owned("my words", "new caption", "credits"));
}

#[test]
fn regenerating_keeps_user_text() {
    let old = "Family trip\n[AI]\nOld caption\n[/AI]\nPhoto by Bo";
    let p = parse_description(old);
    let new = build_description(&p.pre_user, "New caption", &p.post_user);
    assert_eq!(parts(&new), owned("Family trip", "New caption", "Photo by Bo"));
}

#[test]
fn ai_content_with_closing_tag_does_not_round_trip() {
    let built = build_description("pre", "x[/AI]y", "post");
    assert_eq!(parts(&built), owned("pre", "x", "y\n[/AI]\npost"));
}
