//! What repeated sanitizing does.
//!
//! Stripping URL-shaped tokens is idempotent outright: removing a maximal
//! token never butts a word run up against a surviving `://`, so a second
//! pass finds nothing.  The full three-pass sanitizer is idempotent on every
//! input whose sanitized form is *stable* — free of URL seeds, channel
//! tokens and mention tokens.  It is not idempotent on all inputs: removing
//! a channel token can splice a new token together out of its surroundings
//! (so can a display name that itself contains a token), and only a second
//! pass would remove the spliced one.

use crate::sanitize::{
    body_prefix_len, chan_match_len, digit_prefix_len, has_chan_token, lemma_body_prefix_len,
    lemma_chan_match_len_bounds, lemma_mention_token_len, lemma_url_match_len_bounds,
    lemma_word_prefix_len, mention_token, no_mention_tokens, no_url_seed, replace_all_spec, MentionView,
    resolve_from, resolve_mentions_spec, sanitize_spec, starts_chan, starts_url, strip_chan_spec,
    strip_urls_spec, url_match_len, url_seed_at, word_prefix_len,
};
use crate::text::{contains_sub, is_url_body_char, is_word_char, matches_at};
use vstd::prelude::*;

verus! {

/// Shifting into a suffix maps seeds to seeds of the whole.
proof fn lemma_seed_shift(t: Seq<char>, p: int, j: int)
    requires
        0 <= p <= t.len(),
        url_seed_at(t.skip(p), j),
    ensures
        url_seed_at(t, j + p),
{
}

proof fn lemma_no_seed_suffix(t: Seq<char>, p: int)
    requires
        0 <= p <= t.len(),
        no_url_seed(t),
    ensures
        no_url_seed(t.skip(p)),
{
    assert forall|j: int| !url_seed_at(t.skip(p), j) by {
        if url_seed_at(t.skip(p), j) {
            lemma_seed_shift(t, p, j);
        }
    }
}

/// A URL-shaped token at the start of `t` exhibits a seed: the `://` right
/// after the scheme run.
proof fn lemma_starts_url_gives_seed(t: Seq<char>)
    requires
        starts_url(t),
    ensures
        url_seed_at(t, word_prefix_len(t)),
{
    lemma_word_prefix_len(t);
}

/// On seed-free text the URL pass changes nothing.
pub proof fn lemma_strip_urls_identity(t: Seq<char>)
    requires
        no_url_seed(t),
    ensures
        strip_urls_spec(t) == t,
    decreases t.len(),
{
    if t.len() == 0 {
    } else {
        if starts_url(t) {
            lemma_starts_url_gives_seed(t);
            assert(false);
        }
        if is_word_char(t[0]) {
            let k = word_prefix_len(t);
            lemma_word_prefix_len(t);
            lemma_no_seed_suffix(t, k);
            lemma_strip_urls_identity(t.skip(k));
            assert(t.take(k) + t.skip(k) =~= t);
        } else {
            lemma_no_seed_suffix(t, 1);
            lemma_strip_urls_identity(t.skip(1));
            assert(seq![t[0]] + t.skip(1) =~= t);
        }
    }
}

/// The first surviving character after the URL pass is either the first
/// character of the input or not a URL-body character: a removed token is
/// always followed by a non-body character (or the end), because its body
/// run was maximal.
proof fn lemma_strip_first_char(s: Seq<char>)
    ensures
        strip_urls_spec(s).len() > 0 ==> (strip_urls_spec(s)[0] == s[0] || !is_url_body_char(
            strip_urls_spec(s)[0],
        )),
    decreases s.len(),
{
    if s.len() == 0 {
    } else if starts_url(s) {
        let e = url_match_len(s);
        lemma_url_match_len_bounds(s);
        lemma_strip_first_char(s.skip(e));
        let k = word_prefix_len(s);
        lemma_body_prefix_len(s.skip(k + 3));
        if strip_urls_spec(s).len() > 0 {
            if strip_urls_spec(s)[0] == s.skip(e)[0] {
                assert(s.skip(e)[0] == s[e]);
                assert(s[e] == s.skip(k + 3)[body_prefix_len(s.skip(k + 3))]);
                assert(!is_url_body_char(s[e]));
            }
        }
    } else if is_word_char(s[0]) {
        let k = word_prefix_len(s);
        lemma_word_prefix_len(s);
        assert((s.take(k) + strip_urls_spec(s.skip(k)))[0] == s.take(k)[0]);
    } else {
        assert((seq![s[0]] + strip_urls_spec(s.skip(1)))[0] == s[0]);
    }
}

/// If the output of the URL pass begins with `://` and a body character,
/// the input already did: the pass never splices that shape into existence
/// at the front.
proof fn lemma_strip_starts_pattern(u: Seq<char>)
    requires
        strip_urls_spec(u).len() >= 4,
        strip_urls_spec(u)[0] == ':',
        strip_urls_spec(u)[1] == '/',
        strip_urls_spec(u)[2] == '/',
        is_url_body_char(strip_urls_spec(u)[3]),
    ensures
        u.len() >= 4,
        u[0] == ':',
        u[1] == '/',
        u[2] == '/',
        is_url_body_char(u[3]),
{
    let t = strip_urls_spec(u);
    lemma_strip_first_char(u);
    assert(u.len() > 0);
    assert(u[0] == ':');
    assert(word_prefix_len(u) == 0);
    assert(t == seq![u[0]] + strip_urls_spec(u.skip(1)));
    let u1 = u.skip(1);
    let t1 = strip_urls_spec(u1);
    assert(t1[0] == t[1] && t1.len() >= 3);
    lemma_strip_first_char(u1);
    assert(u1[0] == '/');
    assert(u[1] == '/');
    assert(word_prefix_len(u1) == 0);
    assert(t1 == seq![u1[0]] + strip_urls_spec(u1.skip(1)));
    let u2 = u1.skip(1);
    assert(u2 =~= u.skip(2));
    let t2 = strip_urls_spec(u2);
    assert(t2[0] == t1[1] && t1[1] == t[2] && t2.len() >= 2);
    lemma_strip_first_char(u2);
    assert(u2[0] == '/');
    assert(u[2] == '/');
    assert(word_prefix_len(u2) == 0);
    assert(t2 == seq![u2[0]] + strip_urls_spec(u2.skip(1)));
    let u3 = u2.skip(1);
    assert(u3 =~= u.skip(3));
    let t3 = strip_urls_spec(u3);
    assert(t3[0] == t2[1] && t2[1] == t1[2] && t1[2] == t[3] && t3.len() >= 1);
    lemma_strip_first_char(u3);
    assert(u3.len() > 0);
    assert(u3[0] == t3[0]);
    assert(is_url_body_char(u[3]));
}

/// The output of the URL pass holds no seed: nothing a second pass could
/// match.
proof fn lemma_strip_urls_no_seed(s: Seq<char>)
    ensures
        no_url_seed(strip_urls_spec(s)),
    decreases s.len(),
{
    if s.len() == 0 {
        assert forall|j: int| !url_seed_at(strip_urls_spec(s), j) by {}
    } else if starts_url(s) {
        lemma_url_match_len_bounds(s);
        lemma_strip_urls_no_seed(s.skip(url_match_len(s)));
    } else if is_word_char(s[0]) {
        let k = word_prefix_len(s);
        lemma_word_prefix_len(s);
        lemma_strip_urls_no_seed(s.skip(k));
        let w = s.take(k);
        let t = strip_urls_spec(s.skip(k));
        assert(strip_urls_spec(s) == w + t);
        // t does not begin with "://" + body: otherwise s had a URL at 0.
        assert(!(t.len() >= 4 && t[0] == ':' && t[1] == '/' && t[2] == '/' && is_url_body_char(
            t[3],
        ))) by {
            if t.len() >= 4 && t[0] == ':' && t[1] == '/' && t[2] == '/' && is_url_body_char(
                t[3],
            ) {
                lemma_strip_starts_pattern(s.skip(k));
                assert(s[k] == ':' && s[k + 1] == '/' && s[k + 2] == '/' && is_url_body_char(
                    s[k + 3],
                ));
                assert(k + 3 < s.len());
                lemma_body_prefix_len(s.skip(k + 3));
                assert(url_match_len(s) == k + 3 + body_prefix_len(s.skip(k + 3)));
                assert(starts_url(s));
            }
        }
        assert forall|j: int| !url_seed_at(w + t, j) by {
            if url_seed_at(w + t, j) {
                if j < k {
                    assert((w + t)[j] == s[j]);
                    assert(is_word_char(s[j]) && s[j] == ':');
                } else if j == k {
                    assert(t[0] == ':' && t[1] == '/' && t[2] == '/' && is_url_body_char(t[3]));
                } else {
                    assert(url_seed_at(t, j - k));
                }
            }
        }
    } else {
        lemma_strip_urls_no_seed(s.skip(1));
        let t = strip_urls_spec(s.skip(1));
        assert(strip_urls_spec(s) == seq![s[0]] + t);
        assert forall|j: int| !url_seed_at(seq![s[0]] + t, j) by {
            if url_seed_at(seq![s[0]] + t, j) {
                if j == 1 {
                    assert(is_word_char(s[0]));
                } else {
                    assert(url_seed_at(t, j - 1));
                }
            }
        }
    }
}

/// Stripping URL-shaped tokens is idempotent: the first pass leaves nothing
/// a second pass would match, on every input.
pub proof fn lemma_strip_urls_idempotent(s: Seq<char>)
    ensures
        strip_urls_spec(strip_urls_spec(s)) == strip_urls_spec(s),
{
    lemma_strip_urls_no_seed(s);
    lemma_strip_urls_identity(strip_urls_spec(s));
}

/// On text without a channel token the channel pass changes nothing.
pub proof fn lemma_strip_chan_identity(t: Seq<char>)
    requires
        !has_chan_token(t),
    ensures
        strip_chan_spec(t) == t,
    decreases t.len(),
{
    if t.len() == 0 {
    } else {
        assert(t.skip(0) =~= t);
        assert(!starts_chan(t));
        assert(!has_chan_token(t.skip(1))) by {
            if has_chan_token(t.skip(1)) {
                let j = choose|j: int|
                    0 <= j <= t.skip(1).len() && starts_chan(t.skip(1).skip(j));
                assert(t.skip(1).skip(j) =~= t.skip(j + 1));
                assert(starts_chan(t.skip(j + 1)));
            }
        }
        lemma_strip_chan_identity(t.skip(1));
        assert(seq![t[0]] + t.skip(1) =~= t);
    }
}

/// On text without an occurrence of `pat` a replacement pass changes
/// nothing.
pub proof fn lemma_replace_all_identity(s: Seq<char>, pat: Seq<char>, rep: Seq<char>)
    requires
        pat.len() >= 1,
        !contains_sub(s, pat),
    ensures
        replace_all_spec(s, pat, rep) == s,
    decreases s.len(),
{
    if s.len() < pat.len() {
    } else {
        assert(s.take(pat.len() as int) != pat) by {
            if s.take(pat.len() as int) == pat {
                assert(s.subrange(0, pat.len() as int) =~= s.take(pat.len() as int));
                assert(matches_at(s, pat, 0));
            }
        }
        assert(!contains_sub(s.skip(1), pat)) by {
            if contains_sub(s.skip(1), pat) {
                let j = choose|j: int| matches_at(s.skip(1), pat, j);
                assert(s.skip(1).subrange(j, j + pat.len()) =~= s.subrange(
                    j + 1,
                    j + 1 + pat.len(),
                ));
                assert(matches_at(s, pat, j + 1));
            }
        }
        lemma_replace_all_identity(s.skip(1), pat, rep);
        assert(seq![s[0]] + s.skip(1) =~= s);
    }
}

proof fn lemma_resolve_from_identity(t: Seq<char>, ms: Seq<MentionView>, i: int)
    requires
        no_mention_tokens(t, ms),
        0 <= i,
    ensures
        resolve_from(t, ms, i) == t,
    decreases ms.len() - i,
{
    if i < ms.len() {
        lemma_mention_token_len(ms[i].user_id);
        lemma_replace_all_identity(t, mention_token(ms[i].user_id), ms[i].display_name);
        lemma_resolve_from_identity(t, ms, i + 1);
    }
}

/// On text without any supplied mention's token the mention pass changes
/// nothing.
pub proof fn lemma_resolve_mentions_identity(t: Seq<char>, ms: Seq<MentionView>)
    requires
        no_mention_tokens(t, ms),
    ensures
        resolve_mentions_spec(t, ms) == t,
{
    lemma_resolve_from_identity(t, ms, 0);
}

/// Stable text: nothing any of the three passes would still touch.
pub open spec fn sanitize_stable(t: Seq<char>, ms: Seq<MentionView>) -> bool {
    no_url_seed(t) && !has_chan_token(t) && no_mention_tokens(t, ms)
}

/// Sanitizing changes stable text not at all.
pub proof fn lemma_sanitize_identity(t: Seq<char>, ms: Seq<MentionView>)
    requires
        sanitize_stable(t, ms),
    ensures
        sanitize_spec(t, ms) == t,
{
    lemma_strip_urls_identity(t);
    lemma_strip_chan_identity(t);
    lemma_resolve_mentions_identity(t, ms);
}

/// The sanitizer is idempotent on every input whose sanitized form is
/// stable: sanitizing twice is then the same as sanitizing once.  (It is not
/// idempotent on all inputs: removing a channel token can splice URL or
/// channel shapes together out of the surrounding text, and a display name
/// may itself contain a token.)
pub proof fn lemma_sanitize_idempotent(x: Seq<char>, ms: Seq<MentionView>)
    requires
        sanitize_stable(sanitize_spec(x, ms), ms),
    ensures
        sanitize_spec(sanitize_spec(x, ms), ms) == sanitize_spec(x, ms),
{
    lemma_sanitize_identity(sanitize_spec(x, ms), ms);
}

} // verus!
