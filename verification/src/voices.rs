//! Voice-name validation against the gateway's catalog, and the listing
//! shown when a registration names no voice.
//!
//! A requested name matches a catalog entry when they are equal up to ASCII
//! case and surrounding whitespace; entries without a language code are
//! never offered.  The first matching entry wins.

use crate::models::{Voice, VoiceListEntity};
use crate::text::{
    eq_ignore_ascii_case, eq_ignore_ascii_case_exec, lower_exec, lower_seq, str_to_chars,
    string_from_chars, trim_exec, trim_spec,
};
use vstd::prelude::*;

verus! {

/// Does catalog entry `e` answer to `requested` (already trimmed)?
pub open spec fn entry_matches(e: VoiceListEntity, requested: Seq<char>) -> bool {
    e.language_codes@.len() > 0 && eq_ignore_ascii_case(e.name@, requested)
}

/// Resolves a requested voice name against the catalog: whitespace around
/// the request is ignored, the name comparison ignores ASCII case, and the
/// first matching entry (skipping entries without a language code) supplies
/// the profile — its first language code, its name, its gender tag.
pub fn find_voice(catalog: &Vec<VoiceListEntity>, requested: &str) -> (r: Option<Voice>)
    ensures
        r is None ==> forall|i: int|
            0 <= i < catalog@.len() ==> !entry_matches(catalog@[i], trim_spec(requested@)),
        r matches Some(v) ==> exists|i: int|
            {
                &&& 0 <= i < catalog@.len()
                &&& #[trigger] entry_matches(catalog@[i], trim_spec(requested@))
                &&& forall|j: int| 0 <= j < i ==> !entry_matches(catalog@[j], trim_spec(requested@))
                &&& v.language_code@ == catalog@[i].language_codes@[0]@
                &&& v.name@ == catalog@[i].name@
                &&& v.ssml_gender@ == catalog@[i].ssml_gender@
            },
{
    let req = str_to_chars(requested);
    let trimmed = trim_exec(&req);
    let n: usize = catalog.len();
    let mut i: usize = 0;
    while i < n
        invariant
            i <= n == catalog@.len(),
            trimmed@ == trim_spec(requested@),
            forall|j: int| 0 <= j < i ==> !entry_matches(catalog@[j], trim_spec(requested@)),
        decreases n - i,
    {
        if catalog[i].language_codes.len() > 0 {
            let name_chars = str_to_chars(catalog[i].name.as_str());
            if eq_ignore_ascii_case_exec(&name_chars, &trimmed) {
                assert(entry_matches(catalog@[i as int], trim_spec(requested@)));
                return Some(
                    Voice {
                        language_code: catalog[i].language_codes[0].clone(),
                        name: catalog[i].name.clone(),
                        ssml_gender: catalog[i].ssml_gender.clone(),
                    },
                );
            }
        }
        i = i + 1;
    }
    None
}

/// Is `e` offered in the registration help: a voice whose first language
/// code is `en-US` or `en-GB`?
pub open spec fn is_english_entry(e: VoiceListEntity) -> bool {
    e.language_codes@.len() > 0 && (e.language_codes@[0]@ == "en-US"@ || e.language_codes@[0]@
        == "en-GB"@)
}

/// The help line of one offered entry: its gender tag in lowercase, then
/// its name.
pub open spec fn help_line(e: VoiceListEntity) -> Seq<char> {
    "> "@ + lower_seq(e.ssml_gender@) + ": "@ + e.name@ + "\n"@
}

/// The help lines of `catalog[i..]`, in catalog order.
pub open spec fn help_lines_from(catalog: Seq<VoiceListEntity>, i: int) -> Seq<char>
    decreases catalog.len() - i,
{
    if 0 <= i < catalog.len() {
        (if is_english_entry(catalog[i]) {
            help_line(catalog[i])
        } else {
            Seq::<char>::empty()
        }) + help_lines_from(catalog, i + 1)
    } else {
        Seq::<char>::empty()
    }
}

/// Are the characters of `a` exactly `b`?
fn chars_eq(a: &Vec<char>, b: &Vec<char>) -> (r: bool)
    ensures
        r == (a@ == b@),
{
    if a.len() != b.len() {
        return false;
    }
    let n: usize = a.len();
    let mut i: usize = 0;
    while i < n
        invariant
            i <= n == a@.len() == b@.len(),
            forall|j: int| 0 <= j < i ==> a@[j] == b@[j],
        decreases n - i,
    {
        if a[i] != b[i] {
            return false;
        }
        i = i + 1;
    }
    proof {
        assert(a@ =~= b@);
    }
    true
}

/// The voice listing shown when a registration names no voice: one line per
/// English-language catalog entry, in catalog order.
pub fn voice_catalog_help(catalog: &Vec<VoiceListEntity>) -> (s: String)
    ensures
        s@ == help_lines_from(catalog@, 0),
{
    let en_us = str_to_chars("en-US");
    let en_gb = str_to_chars("en-GB");
    let prefix = str_to_chars("> ");
    let sep = str_to_chars(": ");
    let newline = str_to_chars("\n");
    let n: usize = catalog.len();
    let mut acc: Vec<char> = Vec::new();
    let mut i: usize = 0;
    while i < n
        invariant
            i <= n == catalog@.len(),
            en_us@ == "en-US"@ && en_gb@ == "en-GB"@,
            prefix@ == "> "@ && sep@ == ": "@ && newline@ == "\n"@,
            acc@ + help_lines_from(catalog@, i as int) == help_lines_from(catalog@, 0),
        decreases n - i,
    {
        let mut offered: bool = false;
        if catalog[i].language_codes.len() > 0 {
            let code = str_to_chars(catalog[i].language_codes[0].as_str());
            if chars_eq(&code, &en_us) || chars_eq(&code, &en_gb) {
                offered = true;
            }
        }
        assert(offered == is_english_entry(catalog@[i as int]));
        let ghost acc0 = acc@;
        if offered {
            let gender = str_to_chars(catalog[i].ssml_gender.as_str());
            let gender_lower = lower_exec(&gender);
            let name = str_to_chars(catalog[i].name.as_str());
            crate::text::push_range(&mut acc, &prefix, 0, prefix.len());
            crate::text::push_range(&mut acc, &gender_lower, 0, gender_lower.len());
            crate::text::push_range(&mut acc, &sep, 0, sep.len());
            crate::text::push_range(&mut acc, &name, 0, name.len());
            crate::text::push_range(&mut acc, &newline, 0, newline.len());
            proof {
                assert(prefix@.subrange(0, prefix@.len() as int) =~= prefix@);
                assert(gender_lower@.subrange(0, gender_lower@.len() as int) =~= gender_lower@);
                assert(sep@.subrange(0, sep@.len() as int) =~= sep@);
                assert(name@.subrange(0, name@.len() as int) =~= name@);
                assert(newline@.subrange(0, newline@.len() as int) =~= newline@);
                assert(acc@ =~= acc0 + help_line(catalog@[i as int]));
            }
        }
        proof {
            assert(acc@ + help_lines_from(catalog@, i as int + 1) =~= acc0 + help_lines_from(
                catalog@,
                i as int,
            ));
        }
        i = i + 1;
    }
    string_from_chars(&acc)
}

} // verus!
