//! Raw chat text to speakable text.
//!
//! Three passes, in order: URL-shaped tokens (`scheme://` followed by a
//! conservative character class) are removed whole; channel references
//! (`<#digits>`) are removed whole; every mention token (`<@!digits>`) whose
//! id appears in the supplied mention list is replaced by that user's display
//! name.  Anything that does not match a pattern is left exactly as it was,
//! so malformed tokens never fail — they are simply spoken as they stand.
//!
//! Each pass scans left to right and removes or replaces the earliest match
//! first; a URL's scheme extends as far left as word characters go, and its
//! body as far right as body characters go.

use crate::text::{
    dec_digits, is_digit_char, is_digit_char_exec, is_url_body_char, is_url_body_char_exec,
    is_word_char, is_word_char_exec, matches_at, push_dec_digits, push_range, str_to_chars,
    string_from_chars,
};
use vstd::prelude::*;

verus! {

/// One mention embedded in a message: the mentioned user's id and the display
/// name to speak in place of the `<@!id>` token.
pub struct Mention {
    pub user_id: u64,
    pub display_name: String,
}

/// The mathematical image of a mention.
pub struct MentionView {
    pub user_id: u64,
    pub display_name: Seq<char>,
}

impl View for Mention {
    type V = MentionView;

    open spec fn view(&self) -> MentionView {
        MentionView { user_id: self.user_id, display_name: self.display_name@ }
    }
}

/// The images of a mention list.
pub open spec fn mention_views(ms: Seq<Mention>) -> Seq<MentionView> {
    ms.map_values(|m: Mention| m@)
}

/// Length of the maximal run of word characters at the start of `s`.
pub open spec fn word_prefix_len(s: Seq<char>) -> int
    decreases s.len(),
{
    if s.len() > 0 && is_word_char(s[0]) {
        1 + word_prefix_len(s.skip(1))
    } else {
        0
    }
}

/// Length of the maximal run of URL-body characters at the start of `s`.
pub open spec fn body_prefix_len(s: Seq<char>) -> int
    decreases s.len(),
{
    if s.len() > 0 && is_url_body_char(s[0]) {
        1 + body_prefix_len(s.skip(1))
    } else {
        0
    }
}

/// Length of the maximal run of decimal digits at the start of `s`.
pub open spec fn digit_prefix_len(s: Seq<char>) -> int
    decreases s.len(),
{
    if s.len() > 0 && is_digit_char(s[0]) {
        1 + digit_prefix_len(s.skip(1))
    } else {
        0
    }
}

pub proof fn lemma_word_prefix_len(s: Seq<char>)
    ensures
        0 <= word_prefix_len(s) <= s.len(),
        forall|i: int| 0 <= i < word_prefix_len(s) ==> is_word_char(s[i]),
        word_prefix_len(s) < s.len() ==> !is_word_char(s[word_prefix_len(s)]),
    decreases s.len(),
{
    if s.len() > 0 && is_word_char(s[0]) {
        lemma_word_prefix_len(s.skip(1));
        assert forall|i: int| 0 <= i < word_prefix_len(s) implies is_word_char(s[i]) by {
            if i > 0 {
                assert(is_word_char(s.skip(1)[i - 1]));
            }
        }
        if word_prefix_len(s) < s.len() {
            assert(s.skip(1)[word_prefix_len(s.skip(1))] == s[word_prefix_len(s)]);
        }
    }
}

pub proof fn lemma_word_prefix_len_unique(s: Seq<char>, k: int)
    requires
        0 <= k <= s.len(),
        forall|i: int| 0 <= i < k ==> is_word_char(s[i]),
        k < s.len() ==> !is_word_char(s[k]),
    ensures
        word_prefix_len(s) == k,
    decreases s.len(),
{
    if k == 0 {
    } else {
        lemma_word_prefix_len_unique(s.skip(1), k - 1);
    }
}

pub proof fn lemma_body_prefix_len(s: Seq<char>)
    ensures
        0 <= body_prefix_len(s) <= s.len(),
        forall|i: int| 0 <= i < body_prefix_len(s) ==> is_url_body_char(s[i]),
        body_prefix_len(s) < s.len() ==> !is_url_body_char(s[body_prefix_len(s)]),
    decreases s.len(),
{
    if s.len() > 0 && is_url_body_char(s[0]) {
        lemma_body_prefix_len(s.skip(1));
        assert forall|i: int| 0 <= i < body_prefix_len(s) implies is_url_body_char(s[i]) by {
            if i > 0 {
                assert(is_url_body_char(s.skip(1)[i - 1]));
            }
        }
        if body_prefix_len(s) < s.len() {
            assert(s.skip(1)[body_prefix_len(s.skip(1))] == s[body_prefix_len(s)]);
        }
    }
}

pub proof fn lemma_body_prefix_len_unique(s: Seq<char>, k: int)
    requires
        0 <= k <= s.len(),
        forall|i: int| 0 <= i < k ==> is_url_body_char(s[i]),
        k < s.len() ==> !is_url_body_char(s[k]),
    ensures
        body_prefix_len(s) == k,
    decreases s.len(),
{
    if k == 0 {
    } else {
        lemma_body_prefix_len_unique(s.skip(1), k - 1);
    }
}

pub proof fn lemma_digit_prefix_len(s: Seq<char>)
    ensures
        0 <= digit_prefix_len(s) <= s.len(),
        forall|i: int| 0 <= i < digit_prefix_len(s) ==> is_digit_char(s[i]),
        digit_prefix_len(s) < s.len() ==> !is_digit_char(s[digit_prefix_len(s)]),
    decreases s.len(),
{
    if s.len() > 0 && is_digit_char(s[0]) {
        lemma_digit_prefix_len(s.skip(1));
        assert forall|i: int| 0 <= i < digit_prefix_len(s) implies is_digit_char(s[i]) by {
            if i > 0 {
                assert(is_digit_char(s.skip(1)[i - 1]));
            }
        }
        if digit_prefix_len(s) < s.len() {
            assert(s.skip(1)[digit_prefix_len(s.skip(1))] == s[digit_prefix_len(s)]);
        }
    }
}

pub proof fn lemma_digit_prefix_len_unique(s: Seq<char>, k: int)
    requires
        0 <= k <= s.len(),
        forall|i: int| 0 <= i < k ==> is_digit_char(s[i]),
        k < s.len() ==> !is_digit_char(s[k]),
    ensures
        digit_prefix_len(s) == k,
    decreases s.len(),
{
    if k == 0 {
    } else {
        lemma_digit_prefix_len_unique(s.skip(1), k - 1);
    }
}

/// Length of the URL-shaped token at the very start of `s`, or 0 when there
/// is none.  A token is a nonempty run of word characters (the scheme), then
/// `://`, then a nonempty run of body characters; both runs are maximal.
pub open spec fn url_match_len(s: Seq<char>) -> int {
    let k = word_prefix_len(s);
    if k > 0 && k + 3 < s.len() && s[k] == ':' && s[k + 1] == '/' && s[k + 2] == '/'
        && is_url_body_char(s[k + 3]) {
        k + 3 + body_prefix_len(s.skip(k + 3))
    } else {
        0
    }
}

/// Does a URL-shaped token start at the very start of `s`?
pub open spec fn starts_url(s: Seq<char>) -> bool {
    url_match_len(s) > 0
}

pub proof fn lemma_url_match_len_bounds(s: Seq<char>)
    ensures
        starts_url(s) ==> 5 <= url_match_len(s) <= s.len(),
{
    lemma_word_prefix_len(s);
    let k = word_prefix_len(s);
    if k > 0 && k + 3 < s.len() && s[k] == ':' && s[k + 1] == '/' && s[k + 2] == '/'
        && is_url_body_char(s[k + 3]) {
        lemma_body_prefix_len(s.skip(k + 3));
        assert(s.skip(k + 3)[0] == s[k + 3]);
        assert(body_prefix_len(s.skip(k + 3)) >= 1);
    }
}

/// `s` with every URL-shaped token removed, earliest first.
pub open spec fn strip_urls_spec(s: Seq<char>) -> Seq<char>
    decreases s.len(),
    via strip_urls_spec_dec
{
    if s.len() == 0 {
        s
    } else if starts_url(s) {
        strip_urls_spec(s.skip(url_match_len(s)))
    } else if is_word_char(s[0]) {
        s.take(word_prefix_len(s)) + strip_urls_spec(s.skip(word_prefix_len(s)))
    } else {
        seq![s[0]] + strip_urls_spec(s.skip(1))
    }
}

#[via_fn]
proof fn strip_urls_spec_dec(s: Seq<char>) {
    if s.len() > 0 {
        lemma_url_match_len_bounds(s);
        lemma_word_prefix_len(s);
    }
}

/// Length of the channel-reference token (`<#digits>`, possibly with no
/// digits) at the very start of `s`, or 0 when there is none.
pub open spec fn chan_match_len(s: Seq<char>) -> int {
    if s.len() >= 2 && s[0] == '<' && s[1] == '#' {
        let d = digit_prefix_len(s.skip(2));
        if 2 + d < s.len() && s[2 + d] == '>' {
            3 + d
        } else {
            0
        }
    } else {
        0
    }
}

/// Does a channel-reference token start at the very start of `s`?
pub open spec fn starts_chan(s: Seq<char>) -> bool {
    chan_match_len(s) > 0
}

pub proof fn lemma_chan_match_len_bounds(s: Seq<char>)
    ensures
        starts_chan(s) ==> 3 <= chan_match_len(s) <= s.len(),
{
    if s.len() >= 2 && s[0] == '<' && s[1] == '#' {
        lemma_digit_prefix_len(s.skip(2));
    }
}

/// `s` with every channel-reference token removed, earliest first.
pub open spec fn strip_chan_spec(s: Seq<char>) -> Seq<char>
    decreases s.len(),
    via strip_chan_spec_dec
{
    if s.len() == 0 {
        s
    } else if starts_chan(s) {
        strip_chan_spec(s.skip(chan_match_len(s)))
    } else {
        seq![s[0]] + strip_chan_spec(s.skip(1))
    }
}

#[via_fn]
proof fn strip_chan_spec_dec(s: Seq<char>) {
    if s.len() > 0 {
        lemma_chan_match_len_bounds(s);
    }
}

/// `s` with every occurrence of `pat` replaced by `rep`, earliest first,
/// without rescanning what `rep` inserted.
pub open spec fn replace_all_spec(s: Seq<char>, pat: Seq<char>, rep: Seq<char>) -> Seq<char>
    recommends
        pat.len() > 0,
    decreases s.len(),
    when pat.len() > 0
{
    if s.len() < pat.len() {
        s
    } else if s.take(pat.len() as int) == pat {
        rep + replace_all_spec(s.skip(pat.len() as int), pat, rep)
    } else {
        seq![s[0]] + replace_all_spec(s.skip(1), pat, rep)
    }
}

/// The literal mention token of a user id: `<@!` digits `>`.
pub open spec fn mention_token(id: u64) -> Seq<char> {
    seq!['<', '@', '!'] + dec_digits(id as int) + seq!['>']
}

pub proof fn lemma_dec_digits_len(n: int)
    requires
        n >= 0,
    ensures
        dec_digits(n).len() >= 1,
{
}

pub proof fn lemma_mention_token_len(id: u64)
    ensures
        mention_token(id).len() >= 5,
{
    lemma_dec_digits_len(id as int);
}

/// `s` after replacing the mention tokens of `ms[i..]`, in list order.
pub open spec fn resolve_from(s: Seq<char>, ms: Seq<MentionView>, i: int) -> Seq<char>
    decreases ms.len() - i,
{
    if 0 <= i < ms.len() {
        resolve_from(
            replace_all_spec(s, mention_token(ms[i].user_id), ms[i].display_name),
            ms,
            i + 1,
        )
    } else {
        s
    }
}

/// `s` after replacing every supplied mention's token by its display name,
/// one mention at a time, in list order.
pub open spec fn resolve_mentions_spec(s: Seq<char>, ms: Seq<MentionView>) -> Seq<char> {
    resolve_from(s, ms, 0)
}

/// Raw message text to speakable text: URLs out, channel references out,
/// mention tokens replaced by display names.
pub open spec fn sanitize_spec(content: Seq<char>, ms: Seq<MentionView>) -> Seq<char> {
    resolve_mentions_spec(strip_chan_spec(strip_urls_spec(content)), ms)
}

/// A place where the URL pass would find work: `://` with a word character
/// before it and a body character after.
pub open spec fn url_seed_at(t: Seq<char>, j: int) -> bool {
    1 <= j && j + 3 < t.len() && t[j] == ':' && t[j + 1] == '/' && t[j + 2] == '/' && is_word_char(
        t[j - 1],
    ) && is_url_body_char(t[j + 3])
}

/// No URL-shaped token begins anywhere in `t`.
pub open spec fn no_url_seed(t: Seq<char>) -> bool {
    forall|j: int| !url_seed_at(t, j)
}

/// A channel-reference token begins somewhere in `t`.
pub open spec fn has_chan_token(t: Seq<char>) -> bool {
    exists|j: int| 0 <= j <= t.len() && starts_chan(t.skip(j))
}

/// None of the supplied mentions' tokens occurs in `t`.
pub open spec fn no_mention_tokens(t: Seq<char>, ms: Seq<MentionView>) -> bool {
    forall|i: int|
        0 <= i < ms.len() ==> !crate::text::contains_sub(t, mention_token(ms[i].user_id))
}

/// End of the run of word characters starting at `i`.
fn word_run_end(v: &Vec<char>, i: usize) -> (k: usize)
    requires
        i <= v@.len(),
    ensures
        i <= k <= v@.len(),
        forall|j: int| i <= j < k ==> is_word_char(v@[j]),
        k < v@.len() ==> !is_word_char(v@[k as int]),
        k - i == word_prefix_len(v@.skip(i as int)),
{
    let n: usize = v.len();
    let mut k: usize = i;
    while k < n && is_word_char_exec(v[k])
        invariant
            i <= k <= n == v@.len(),
            forall|j: int| i <= j < k ==> is_word_char(v@[j]),
        decreases n - k,
    {
        k = k + 1;
    }
    proof {
        lemma_word_prefix_len_unique(v@.skip(i as int), k - i);
    }
    k
}

/// End of the run of URL-body characters starting at `i`.
fn body_run_end(v: &Vec<char>, i: usize) -> (k: usize)
    requires
        i <= v@.len(),
    ensures
        i <= k <= v@.len(),
        k - i == body_prefix_len(v@.skip(i as int)),
{
    let n: usize = v.len();
    let mut k: usize = i;
    while k < n && is_url_body_char_exec(v[k])
        invariant
            i <= k <= n == v@.len(),
            forall|j: int| i <= j < k ==> is_url_body_char(v@[j]),
        decreases n - k,
    {
        k = k + 1;
    }
    proof {
        lemma_body_prefix_len_unique(v@.skip(i as int), k - i);
    }
    k
}

/// End of the run of decimal digits starting at `i`.
fn digit_run_end(v: &Vec<char>, i: usize) -> (k: usize)
    requires
        i <= v@.len(),
    ensures
        i <= k <= v@.len(),
        k - i == digit_prefix_len(v@.skip(i as int)),
{
    let n: usize = v.len();
    let mut k: usize = i;
    while k < n && is_digit_char_exec(v[k])
        invariant
            i <= k <= n == v@.len(),
            forall|j: int| i <= j < k ==> is_digit_char(v@[j]),
        decreases n - k,
    {
        k = k + 1;
    }
    proof {
        lemma_digit_prefix_len_unique(v@.skip(i as int), k - i);
    }
    k
}

/// Removes every URL-shaped token of `input`, earliest first.
pub fn strip_urls(input: &Vec<char>) -> (out: Vec<char>)
    ensures
        out@ == strip_urls_spec(input@),
{
    let n: usize = input.len();
    let mut out: Vec<char> = Vec::new();
    let mut i: usize = 0;
    proof {
        assert(input@.skip(0) =~= input@);
    }
    while i < n
        invariant
            i <= n == input@.len(),
            strip_urls_spec(input@) == out@ + strip_urls_spec(input@.skip(i as int)),
        decreases n - i,
    {
        let ghost suf = input@.skip(i as int);
        let k = word_run_end(input, i);
        proof {
            assert(suf.len() == n - i);
        }
        if k > i {
            if n - k > 3 && input[k] == ':' && input[k + 1] == '/' && input[k + 2] == '/'
                && is_url_body_char_exec(input[k + 3]) {
                let e = body_run_end(input, k + 3);
                proof {
                    assert(suf.skip(k + 3 - i) =~= input@.skip(k as int + 3));
                    assert(word_prefix_len(suf) == k - i);
                    assert(suf[k - i] == ':' && suf[k - i + 1] == '/' && suf[k - i + 2] == '/');
                    assert(is_url_body_char(suf[k - i + 3]));
                    assert(url_match_len(suf) == (k - i) + 3 + body_prefix_len(
                        suf.skip(k - i + 3),
                    ));
                    assert(url_match_len(suf) == e - i);
                    assert(starts_url(suf));
                    assert(strip_urls_spec(suf) == strip_urls_spec(suf.skip(e - i)));
                    assert(suf.skip(e - i) =~= input@.skip(e as int));
                }
                i = e;
            } else {
                proof {
                    assert(word_prefix_len(suf) == k - i);
                    assert(!starts_url(suf)) by {
                        if k - i + 3 < suf.len() {
                            assert(suf[k - i] == input@[k as int]);
                            assert(suf[k - i + 1] == input@[k as int + 1]);
                            assert(suf[k - i + 2] == input@[k as int + 2]);
                            assert(suf[k - i + 3] == input@[k as int + 3]);
                        }
                    }
                    assert(is_word_char(suf[0]));
                    assert(strip_urls_spec(suf) == suf.take(k - i) + strip_urls_spec(
                        suf.skip(k - i),
                    ));
                    assert(suf.take(k - i) =~= input@.subrange(i as int, k as int));
                    assert(suf.skip(k - i) =~= input@.skip(k as int));
                }
                push_range(&mut out, input, i, k);
                proof {
                    assert(out@ + strip_urls_spec(input@.skip(k as int)) =~= strip_urls_spec(
                        input@,
                    ));
                }
                i = k;
            }
        } else {
            proof {
                assert(word_prefix_len(suf) == 0);
                assert(!starts_url(suf));
                assert(!is_word_char(suf[0]));
                assert(strip_urls_spec(suf) == seq![suf[0]] + strip_urls_spec(suf.skip(1)));
                assert(suf.skip(1) =~= input@.skip(i as int + 1));
            }
            let c = input[i];
            out.push(c);
            i = i + 1;
            proof {
                assert(out@ + strip_urls_spec(input@.skip(i as int)) =~= strip_urls_spec(input@));
            }
        }
    }
    proof {
        assert(input@.skip(n as int) =~= Seq::<char>::empty());
        assert(out@ =~= strip_urls_spec(input@));
    }
    out
}

/// Removes every channel-reference token of `input`, earliest first.
pub fn strip_channel_refs(input: &Vec<char>) -> (out: Vec<char>)
    ensures
        out@ == strip_chan_spec(input@),
{
    let n: usize = input.len();
    let mut out: Vec<char> = Vec::new();
    let mut i: usize = 0;
    proof {
        assert(input@.skip(0) =~= input@);
    }
    while i < n
        invariant
            i <= n == input@.len(),
            strip_chan_spec(input@) == out@ + strip_chan_spec(input@.skip(i as int)),
        decreases n - i,
    {
        let ghost suf = input@.skip(i as int);
        let mut matched: bool = false;
        let mut match_end: usize = 0;
        if n - i >= 2 && input[i] == '<' && input[i + 1] == '#' {
            let d = digit_run_end(input, i + 2);
            if d < n && input[d] == '>' {
                matched = true;
                match_end = d + 1;
                proof {
                    assert(suf.skip(2) =~= input@.skip(i as int + 2));
                    assert(digit_prefix_len(suf.skip(2)) == d - i - 2);
                    assert(suf[0] == '<' && suf[1] == '#');
                    assert(suf[2 + (d - i - 2)] == input@[d as int]);
                    assert(chan_match_len(suf) == 3 + (d - i - 2));
                    assert(chan_match_len(suf) == match_end - i);
                    assert(starts_chan(suf));
                    assert(strip_chan_spec(suf) == strip_chan_spec(suf.skip(match_end - i)));
                    assert(suf.skip(match_end - i) =~= input@.skip(match_end as int));
                }
            } else {
                proof {
                    assert(suf.skip(2) =~= input@.skip(i as int + 2));
                    assert(digit_prefix_len(suf.skip(2)) == d - i - 2);
                    if 2 + (d - i - 2) < suf.len() {
                        assert(suf[2 + (d - i - 2)] == input@[d as int]);
                    }
                    assert(!starts_chan(suf));
                }
            }
        } else {
            proof {
                if suf.len() >= 2 {
                    assert(suf[0] == input@[i as int] && suf[1] == input@[i as int + 1]);
                }
                assert(!starts_chan(suf));
            }
        }
        if matched {
            i = match_end;
        } else {
            proof {
                assert(strip_chan_spec(suf) == seq![suf[0]] + strip_chan_spec(suf.skip(1)));
                assert(suf.skip(1) =~= input@.skip(i as int + 1));
            }
            let c = input[i];
            out.push(c);
            i = i + 1;
            proof {
                assert(out@ + strip_chan_spec(input@.skip(i as int)) =~= strip_chan_spec(input@));
            }
        }
    }
    proof {
        assert(input@.skip(n as int) =~= Seq::<char>::empty());
        assert(out@ =~= strip_chan_spec(input@));
    }
    out
}

/// Replaces every occurrence of `pat` in `s` by `rep`, earliest first.
pub fn replace_all(s: &Vec<char>, pat: &Vec<char>, rep: &Vec<char>) -> (out: Vec<char>)
    requires
        pat@.len() >= 1,
    ensures
        out@ == replace_all_spec(s@, pat@, rep@),
{
    let n: usize = s.len();
    let plen: usize = pat.len();
    let rlen: usize = rep.len();
    let mut out: Vec<char> = Vec::new();
    let mut i: usize = 0;
    proof {
        assert(s@.skip(0) =~= s@);
    }
    while i < n
        invariant
            i <= n == s@.len(),
            plen == pat@.len(),
            rlen == rep@.len(),
            1 <= plen,
            replace_all_spec(s@, pat@, rep@) == out@ + replace_all_spec(
                s@.skip(i as int),
                pat@,
                rep@,
            ),
        decreases n - i,
    {
        let ghost suf = s@.skip(i as int);
        if n - i >= plen && crate::text::matches_at_exec(s, pat, i) {
            proof {
                assert(suf.take(plen as int) =~= s@.subrange(i as int, i + plen));
                assert(suf.take(plen as int) == pat@);
                assert(replace_all_spec(suf, pat@, rep@) == rep@ + replace_all_spec(
                    suf.skip(plen as int),
                    pat@,
                    rep@,
                ));
                assert(suf.skip(plen as int) =~= s@.skip(i + plen));
            }
            push_range(&mut out, rep, 0, rlen);
            proof {
                assert(rep@.subrange(0, rlen as int) =~= rep@);
                assert(out@ + replace_all_spec(s@.skip(i + plen), pat@, rep@) =~= replace_all_spec(
                    s@,
                    pat@,
                    rep@,
                ));
            }
            i = i + plen;
        } else {
            proof {
                if suf.len() >= plen {
                    assert(suf.take(plen as int) =~= s@.subrange(i as int, i + plen));
                    assert(suf.take(plen as int) != pat@);
                }
                assert(replace_all_spec(suf, pat@, rep@) == seq![suf[0]] + replace_all_spec(
                    suf.skip(1),
                    pat@,
                    rep@,
                ));
                assert(suf.skip(1) =~= s@.skip(i as int + 1));
            }
            let c = s[i];
            out.push(c);
            i = i + 1;
            proof {
                assert(out@ + replace_all_spec(s@.skip(i as int), pat@, rep@) =~= replace_all_spec(
                    s@,
                    pat@,
                    rep@,
                ));
            }
        }
    }
    proof {
        assert(s@.skip(n as int) =~= Seq::<char>::empty());
        assert(out@ =~= replace_all_spec(s@, pat@, rep@));
    }
    out
}

/// The literal token `<@!id>` as characters.
pub fn mention_token_exec(id: u64) -> (t: Vec<char>)
    ensures
        t@ == mention_token(id),
        t@.len() >= 5,
{
    let mut t: Vec<char> = Vec::new();
    t.push('<');
    t.push('@');
    t.push('!');
    push_dec_digits(id, &mut t);
    t.push('>');
    proof {
        lemma_mention_token_len(id);
        assert(t@ =~= mention_token(id));
    }
    t
}

/// Turns raw message text into speakable text: strips URL-shaped tokens,
/// strips channel references, and replaces each supplied mention's `<@!id>`
/// token by the user's display name, in list order.  Text that matches no
/// pattern comes through unchanged.
pub fn sanitize(content: &str, mentions: &Vec<Mention>) -> (out: String)
    ensures
        out@ == sanitize_spec(content@, mention_views(mentions@)),
{
    let cs = str_to_chars(content);
    let no_urls = strip_urls(&cs);
    let base = strip_channel_refs(&no_urls);
    let ghost ms = mention_views(mentions@);
    let ghost base0 = base@;
    let mut cur = base;
    let mut idx: usize = 0;
    while idx < mentions.len()
        invariant
            idx <= mentions@.len(),
            ms == mention_views(mentions@),
            resolve_from(cur@, ms, idx as int) == resolve_from(base0, ms, 0),
        decreases mentions@.len() - idx,
    {
        let token = mention_token_exec(mentions[idx].user_id);
        let name = str_to_chars(mentions[idx].display_name.as_str());
        let next = replace_all(&cur, &token, &name);
        proof {
            assert(ms[idx as int] == mentions@[idx as int]@);
            assert(next@ == replace_all_spec(
                cur@,
                mention_token(ms[idx as int].user_id),
                ms[idx as int].display_name,
            ));
            assert(resolve_from(next@, ms, idx as int + 1) == resolve_from(cur@, ms, idx as int));
        }
        cur = next;
        idx = idx + 1;
    }
    string_from_chars(&cur)
}

} // verus!
