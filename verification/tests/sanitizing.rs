use tts_core::sanitize::{sanitize, Mention};

fn mention(id: u64, name: &str) -> Mention {
    Mention { user_id: id, display_name: name.to_string() }
}

#[test]
fn url_and_mention_resolved() {
    let out = sanitize("check http://x.co/y out <@!42>", &vec![mention(42, "Sam")]);
    assert_eq!(out, "check  out Sam");
}

#[test]
fn plain_text_unchanged() {
    assert_eq!(sanitize("hello there", &vec![]), "hello there");
}

#[test]
fn empty_text_stays_empty() {
    assert_eq!(sanitize("", &vec![]), "");
}

#[test]
fn url_scheme_extends_left_and_body_right() {
    // the scheme is the whole word run before "://", the body runs to the
    // first character outside the class
    assert_eq!(sanitize("xhttps://a.b/c end", &vec![]), " end");
    assert_eq!(sanitize("a://b", &vec![]), "");
}

#[test]
fn url_without_body_stays() {
    assert_eq!(sanitize("http://", &vec![]), "http://");
    assert_eq!(sanitize("http:// x", &vec![]), "http:// x");
}

#[test]
fn bare_separator_stays() {
    assert_eq!(sanitize("a :// b", &vec![]), "a :// b");
}

#[test]
fn channel_reference_removed() {
    assert_eq!(sanitize("see <#123456> ok", &vec![]), "see  ok");
    assert_eq!(sanitize("<#>", &vec![]), "");
}

#[test]
fn malformed_channel_reference_stays() {
    assert_eq!(sanitize("see <#12x> ok", &vec![]), "see <#12x> ok");
    assert_eq!(sanitize("<# 1>", &vec![]), "<# 1>");
}

#[test]
fn unknown_mention_token_stays() {
    assert_eq!(sanitize("hi <@!42>", &vec![]), "hi <@!42>");
    assert_eq!(sanitize("hi <@!42>", &vec![mention(7, "Ann")]), "hi <@!42>");
}

#[test]
fn every_occurrence_of_a_mention_resolves() {
    let out = sanitize("<@!5> and <@!5>", &vec![mention(5, "Kim")]);
    assert_eq!(out, "Kim and Kim");
}

#[test]
fn mentions_resolve_in_list_order() {
    let out = sanitize("<@!1> <@!2>", &vec![mention(1, "Ann"), mention(2, "Ben")]);
    assert_eq!(out, "Ann Ben");
}

#[test]
fn non_ascii_text_passes_through() {
    assert_eq!(sanitize("héllo wörld ✨", &vec![]), "héllo wörld ✨");
}

#[test]
fn non_ascii_display_name_resolves() {
    assert_eq!(sanitize("hi <@!3>", &vec![mention(3, "Zoë")]), "hi Zoë");
}

#[test]
fn url_next_to_non_ascii_is_removed() {
    assert_eq!(sanitize("é http://a.b c", &vec![]), "é  c");
}

#[test]
fn sanitize_is_idempotent_on_ordinary_text() {
    let mentions = vec![mention(42, "Sam")];
    let once = sanitize("check http://x.co/y out <@!42>", &mentions);
    let twice = sanitize(&once, &mentions);
    assert_eq!(twice, once);
}

#[test]
fn channel_removal_can_splice_a_url() {
    // one pass leaves the spliced URL; only the next pass would remove it
    let once = sanitize("a<#1>://b", &vec![]);
    assert_eq!(once, "a://b");
    assert_eq!(sanitize(&once, &vec![]), "");
}
