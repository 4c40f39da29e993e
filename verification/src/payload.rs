//! Embedded-payload repair and decoder.
//!
//! One profile page embeds a script-local object literal that is not valid
//! on its own: its free-text summary field may contain the very delimiters
//! that close the object. The repair locates the summary value by anchoring
//! on the *last* closing-brace-adjacent quote, escapes the quotes inside
//! it, splices in two separately scraped fields, and only then decodes the
//! text into a typed record. The whole text surgery is verified against
//! `repaired_payload`; only the structural scraping and the final decode
//! are trusted calls.

use vstd::prelude::*;
use vstd::string::*;

use crate::counters::{check_selector, selector_valid};
use crate::error::ProfileError;
use crate::text::{
    append_range, append_str, chars_to_string, escape_quotes, escape_quotes_exec, find, find_from,
    lemma_find_from_match, lemma_rfind_from_match, rfind, rfind_from, str_to_chars, strip_ctl,
    strip_ctl_exec, strip_once, strip_once_exec, subvec, trim_end, trim_end_index,
};

verus! {

/// The decoded supplemental record scraped from the profile page: four
/// fields from the embedded payload plus two (avatar address, level text)
/// that are scraped separately and spliced in before decoding.
pub struct RawEmbeddedRecord {
    pub url: String,
    pub steamid: String,
    pub personaname: String,
    pub summary: String,
    pub imgurl: String,
    pub lvl: String,
}

impl View for RawEmbeddedRecord {
    type V = (Seq<char>, Seq<char>, Seq<char>, Seq<char>, Seq<char>, Seq<char>);

    open spec fn view(&self) -> Self::V {
        (self.url@, self.steamid@, self.personaname@, self.summary@, self.imgurl@, self.lvl@)
    }
}

/// The assignment prefix that precedes the payload in the script region.
pub open spec fn assign_prefix() -> Seq<char> {
    "g_rgProfileData = "@
}

/// The inline-script tail that follows the payload in the script region.
pub open spec fn script_tail() -> Seq<char> {
    ";const g_bViewingOwnProfile = 0;$J( function() {window.Responsive_ReparentItemsInResponsiveMode && Responsive_ReparentItemsInResponsiveMode( '.responsive_groupfriends_element', $J('#responsive_groupfriends_element_ctn') );SetupAnimateOnHoverImages();});"@
}

/// The key that introduces the summary value.
pub open spec fn summary_key() -> Seq<char> {
    "\"summary\":\""@
}

/// The closing-brace-adjacent quote that ends the summary value.
pub open spec fn close_delim() -> Seq<char> {
    "\"}"@
}

/// The payload text after the lexical clean-up: backslash, newline and tab
/// characters stripped, then the first occurrence each of the assignment
/// prefix and of the script tail removed (strip-if-present).
pub open spec fn cleaned_payload(raw: Seq<char>) -> Seq<char> {
    strip_once(strip_once(strip_ctl(raw), assign_prefix()), script_tail())
}

/// The two supplemental fields as text, ready to stand immediately before
/// the payload's final closing brace.
pub open spec fn inject_fields(avatar: Seq<char>, lvl: Seq<char>) -> Seq<char> {
    ",\"imgurl\":\""@ + avatar + "\",\"lvl\":\""@ + lvl + "\""@
}

/// The repaired payload text, or `None` where the summary delimiter
/// pattern cannot be located.
///
/// In the cleaned text, the summary value starts after the first occurrence
/// of the summary key and runs to the *last* occurrence of the
/// closing-brace-adjacent quote — a last-occurrence, greedy-to-end-then-trim
/// match, so quotes and braces inside the summary never truncate it. Every
/// quote inside the captured value gets a backslash, and the two
/// supplemental fields are inserted immediately before the final closing
/// brace.
pub open spec fn repaired_payload(raw: Seq<char>, avatar: Seq<char>, lvl: Seq<char>) -> Option<
    Seq<char>,
> {
    let t = cleaned_payload(raw);
    let k = find_from(t, summary_key(), 0);
    if k < 0 {
        None
    } else {
        let cs = k + summary_key().len() as int;
        let e = rfind_from(t, close_delim(), t.len() - close_delim().len());
        if e < cs {
            None
        } else {
            let cap = trim_end(t.subrange(cs, e));
            let body = t.subrange(0, cs) + escape_quotes(cap) + t.subrange(
                cs + cap.len() as int,
                t.len() as int,
            );
            let p = rfind_from(body, "}"@, body.len() - 1);
            if p < 0 {
                None
            } else {
                Some(
                    body.subrange(0, p) + inject_fields(avatar, lvl) + body.subrange(
                        p,
                        body.len() as int,
                    ),
                )
            }
        }
    }
}

/// Repairs the raw payload text as `repaired_payload` states, failing
/// exactly where the summary delimiter pattern cannot be located.
pub fn repair_payload(raw: &str, avatar: &str, lvl: &str) -> (r: Result<String, ProfileError>)
    ensures
        repaired_payload(raw@, avatar@, lvl@) matches Some(t) ==> (r matches Ok(s) && s@ == t),
        repaired_payload(raw@, avatar@, lvl@) is None ==> (r matches Err(e) && e is RepairError),
{
    let raw_chars = str_to_chars(raw);
    let t0 = strip_ctl_exec(&raw_chars);
    let prefix_chars = str_to_chars("g_rgProfileData = ");
    let t1 = strip_once_exec(&t0, &prefix_chars);
    let tail_chars = str_to_chars(
        ";const g_bViewingOwnProfile = 0;$J( function() {window.Responsive_ReparentItemsInResponsiveMode && Responsive_ReparentItemsInResponsiveMode( '.responsive_groupfriends_element', $J('#responsive_groupfriends_element_ctn') );SetupAnimateOnHoverImages();});",
    );
    let t = strip_once_exec(&t1, &tail_chars);
    proof {
        assert(prefix_chars@ == assign_prefix());
        assert(tail_chars@ == script_tail());
        assert(t@ == cleaned_payload(raw@));
    }
    let key_chars = str_to_chars("\"summary\":\"");
    proof {
        assert(key_chars@ == summary_key());
    }
    let k = match find(&t, &key_chars) {
        None => {
            return Err(ProfileError::RepairError);
        },
        Some(k) => k,
    };
    proof {
        lemma_find_from_match(t@, key_chars@, 0);
    }
    let tl: usize = t.len();
    assert(k + key_chars@.len() <= tl);
    let cs: usize = k + key_chars.len();
    let close_chars = str_to_chars("\"}");
    proof {
        assert(close_chars@ == close_delim());
    }
    let e = match rfind(&t, &close_chars) {
        None => {
            return Err(ProfileError::RepairError);
        },
        Some(e) => e,
    };
    if e < cs {
        return Err(ProfileError::RepairError);
    }
    proof {
        lemma_rfind_from_match(t@, close_chars@, t@.len() - close_chars@.len());
    }
    let ce = trim_end_index(&t, cs, e);
    let ghost cap = trim_end(t@.subrange(cs as int, e as int));
    proof {
        assert(t@.subrange(cs as int, ce as int) == cap);
        assert(cs + cap.len() == ce as int);
    }
    let cap_vec = subvec(&t, cs, ce);
    let esc = escape_quotes_exec(&cap_vec);
    let mut body = subvec(&t, 0, cs);
    append_range(&mut body, &esc, 0, esc.len());
    append_range(&mut body, &t, ce, tl);
    proof {
        assert(esc@.subrange(0, esc@.len() as int) =~= esc@);
        assert(body@ =~= t@.subrange(0, cs as int) + escape_quotes(cap) + t@.subrange(
            cs + cap.len() as int,
            t@.len() as int,
        ));
    }
    let brace_chars = str_to_chars("}");
    proof {
        reveal_strlit("}");
        assert(brace_chars@ == "}"@);
    }
    let p = match rfind(&body, &brace_chars) {
        None => {
            return Err(ProfileError::RepairError);
        },
        Some(p) => p,
    };
    proof {
        lemma_rfind_from_match(body@, brace_chars@, body@.len() - brace_chars@.len());
    }
    let bl: usize = body.len();
    let mut out = subvec(&body, 0, p);
    append_str(&mut out, ",\"imgurl\":\"");
    append_str(&mut out, avatar);
    append_str(&mut out, "\",\"lvl\":\"");
    append_str(&mut out, lvl);
    append_str(&mut out, "\"");
    append_range(&mut out, &body, p, bl);
    proof {
        assert(out@ =~= body@.subrange(0, p as int) + inject_fields(avatar@, lvl@)
            + body@.subrange(p as int, body@.len() as int));
    }
    Ok(chars_to_string(&out))
}

/// The selector of the unique container element that holds the embedded
/// payload as its first child element's text.
pub open spec fn content_sel() -> Seq<char> {
    "div#responsive_page_template_content"@
}

/// The selector of the avatar element whose last child carries the avatar
/// image address.
pub open spec fn avatar_sel() -> Seq<char> {
    "div.playerAvatarAutoSizeInner"@
}

/// The selector of the element whose inner markup is the level text.
pub open spec fn level_sel() -> Seq<char> {
    "span.friendPlayerLevelNum"@
}

/// What `scraper` finds in `markup` for an anchor selector: the
/// concatenated text of the first child element of the first element
/// matching the selector, absent where no such element or child exists.
pub uninterp spec fn anchor_text_of(markup: Seq<char>, sel: Seq<char>) -> Option<Seq<char>>;

/// What `scraper` finds for the avatar: the outer level is absent where no
/// element matches the selector or it has no child element, the inner
/// where the last child has no `src` attribute.
pub uninterp spec fn avatar_src_of(markup: Seq<char>, sel: Seq<char>) -> Option<Option<Seq<char>>>;

/// What `scraper` finds for the level: the inner markup of the first
/// element matching the selector, absent where none matches.
pub uninterp spec fn level_html_of(markup: Seq<char>, sel: Seq<char>) -> Option<Seq<char>>;

/// Relies on `scraper::Html::parse_document`, `scraper::Selector::parse`,
/// `ElementRef::child_elements` and `ElementRef::text`: the text of the
/// first child element of the first element matching `sel`; `None` where
/// `Selector::parse` rejects `sel`. The result depends on the arguments
/// alone.
#[verifier::external_body]
fn anchor_first_child_text(markup: &str, sel: &str) -> (r: Option<Option<String>>)
    ensures
        r is Some == selector_valid(sel@),
        r matches Some(t) ==> (t is Some == anchor_text_of(markup@, sel@) is Some),
        r matches Some(t) ==> (t matches Some(s) ==> Some(s@) == anchor_text_of(markup@, sel@)),
{
    let doc = scraper::Html::parse_document(markup);
    let c = scraper::Selector::parse(sel).ok()?;
    Some(
        doc.select(&c).next().and_then(|el| el.child_elements().next()).map(
            |el| el.text().collect(),
        ),
    )
}

/// Relies on `scraper::Html::parse_document`, `scraper::Selector::parse`,
/// `ElementRef::child_elements` and `ElementRef::attr`: the `src` attribute
/// of the last child element of the first element matching `sel`; `None`
/// where `Selector::parse` rejects `sel`. The result depends on the
/// arguments alone.
#[verifier::external_body]
fn avatar_last_child_src(markup: &str, sel: &str) -> (r: Option<Option<Option<String>>>)
    ensures
        r is Some == selector_valid(sel@),
        r matches Some(m) ==> (m is Some == avatar_src_of(markup@, sel@) is Some),
        r matches Some(m) ==> (m matches Some(a) ==> (a is Some == avatar_src_of(
            markup@,
            sel@,
        ).unwrap() is Some)),
        r matches Some(m) ==> (m matches Some(a) ==> (a matches Some(s) ==> Some(s@)
            == avatar_src_of(markup@, sel@).unwrap())),
{
    let doc = scraper::Html::parse_document(markup);
    let c = scraper::Selector::parse(sel).ok()?;
    Some(
        doc.select(&c).next().and_then(|el| el.child_elements().last()).map(
            |el| el.attr("src").map(|s| s.to_owned()),
        ),
    )
}

/// Relies on `scraper::Html::parse_document`, `scraper::Selector::parse`
/// and `ElementRef::inner_html`: the inner markup of the first element
/// matching `sel`; `None` where `Selector::parse` rejects `sel`. The
/// result depends on the arguments alone.
#[verifier::external_body]
fn level_inner_html(markup: &str, sel: &str) -> (r: Option<Option<String>>)
    ensures
        r is Some == selector_valid(sel@),
        r matches Some(t) ==> (t is Some == level_html_of(markup@, sel@) is Some),
        r matches Some(t) ==> (t matches Some(s) ==> Some(s@) == level_html_of(markup@, sel@)),
{
    let doc = scraper::Html::parse_document(markup);
    let c = scraper::Selector::parse(sel).ok()?;
    Some(doc.select(&c).next().map(|el| el.inner_html()))
}

/// What decoding a repaired payload yields: the six string fields `url`,
/// `steamid`, `personaname`, `summary`, `imgurl` and `lvl` of the decoded
/// object, in that order, or nothing where the text is not a well-formed
/// object holding all six as strings.
pub uninterp spec fn json_record_of(s: Seq<char>) -> Option<
    (Seq<char>, Seq<char>, Seq<char>, Seq<char>, Seq<char>, Seq<char>),
>;

/// Relies on `serde_json::from_str::<serde_json::Value>` and
/// `serde_json::Value::{get, as_str}`: decodes `s` as a structured object
/// and copies out its six expected string members, failing where `s` is
/// not decodable or a member is missing or not a string. Extra members are
/// ignored. The result depends on `s` alone.
#[verifier::external_body]
fn decode_json_record(s: &str) -> (r: Option<RawEmbeddedRecord>)
    ensures
        r is Some == json_record_of(s@) is Some,
        r matches Some(rec) ==> Some(rec@) == json_record_of(s@),
{
    let v: serde_json::Value = serde_json::from_str(s).ok()?;
    Some(
        RawEmbeddedRecord {
            url: v.get("url")?.as_str()?.to_owned(),
            steamid: v.get("steamid")?.as_str()?.to_owned(),
            personaname: v.get("personaname")?.as_str()?.to_owned(),
            summary: v.get("summary")?.as_str()?.to_owned(),
            imgurl: v.get("imgurl")?.as_str()?.to_owned(),
            lvl: v.get("lvl")?.as_str()?.to_owned(),
        },
    )
}

/// What the embedded-payload pipeline owes once the raw payload text is in
/// hand: a repair failure surfaces as `RepairError`, an undecodable
/// repaired text as `DecodeError`, and otherwise the decoded record of the
/// repaired text.
pub open spec fn decode_outcome(
    r: Result<RawEmbeddedRecord, ProfileError>,
    raw: Seq<char>,
    avatar: Seq<char>,
    lvl: Seq<char>,
) -> bool {
    match repaired_payload(raw, avatar, lvl) {
        None => r matches Err(e) && e is RepairError,
        Some(t) => match json_record_of(t) {
            None => r matches Err(e) && e is DecodeError,
            Some(f) => r matches Ok(rec) && rec@ == f,
        },
    }
}

/// Decodes the embedded payload of the profile page `markup`, splicing in
/// the two supplemental fields. Fails with `ExtractionError` where the
/// payload's container anchor is absent, with `RepairError` where the
/// summary delimiter pattern cannot be located, and with `DecodeError`
/// where the repaired text is not decodable; otherwise the decoded record
/// is exactly that of the repaired payload.
pub fn decode_profile(markup: &str, avatar: &str, lvl: &str) -> (r: Result<
    RawEmbeddedRecord,
    ProfileError,
>)
    ensures
        !selector_valid(content_sel()) ==> (r matches Err(e) && e is SelectorError),
        selector_valid(content_sel()) && anchor_text_of(markup@, content_sel()) is None ==> (
        r matches Err(e) && e is ExtractionError),
        selector_valid(content_sel()) ==> (anchor_text_of(markup@, content_sel()) matches Some(raw)
            ==> decode_outcome(r, raw, avatar@, lvl@)),
{
    match anchor_first_child_text(markup, "div#responsive_page_template_content") {
        None => Err(
            ProfileError::SelectorError(String::from_str("invalid selector expression")),
        ),
        Some(None) => Err(
            ProfileError::ExtractionError(String::from_str("payload container element not found")),
        ),
        Some(Some(raw)) => match repair_payload(raw.as_str(), avatar, lvl) {
            Err(e) => Err(e),
            Ok(s) => match decode_json_record(s.as_str()) {
                None => Err(ProfileError::DecodeError),
                Some(rec) => Ok(rec),
            },
        },
    }
}

/// The avatar address the profile page yields: the scraped `src`
/// attribute, or the fixed fallback literal where the attribute is absent;
/// nothing where the avatar element itself is absent.
pub open spec fn avatar_value(markup: Seq<char>) -> Option<Seq<char>> {
    match avatar_src_of(markup, avatar_sel()) {
        None => None,
        Some(att) => Some(
            match att {
                Some(s) => s,
                None => "none"@,
            },
        ),
    }
}

/// The full embedded-payload pipeline on the profile page `markup`:
/// scrapes the avatar address and the level text from their anchor
/// elements, then repairs and decodes the embedded payload with those two
/// fields spliced in. Any absent anchor element surfaces as
/// `ExtractionError`; an invalid selector as `SelectorError`; the rest is
/// `decode_outcome`.
pub fn profile_record(markup: &str) -> (r: Result<RawEmbeddedRecord, ProfileError>)
    ensures
        !(selector_valid(avatar_sel()) && selector_valid(level_sel()) && selector_valid(
            content_sel(),
        )) ==> (r matches Err(e) && e is SelectorError),
        selector_valid(avatar_sel()) && selector_valid(level_sel()) && selector_valid(content_sel())
            ==> if avatar_src_of(markup@, avatar_sel()) is None || level_html_of(
            markup@,
            level_sel(),
        ) is None || anchor_text_of(markup@, content_sel()) is None {
            r matches Err(e) && e is ExtractionError
        } else {
            decode_outcome(
                r,
                anchor_text_of(markup@, content_sel()).unwrap(),
                avatar_value(markup@).unwrap(),
                level_html_of(markup@, level_sel()).unwrap(),
            )
        },
{
    if !(check_selector("div.playerAvatarAutoSizeInner") && check_selector(
        "span.friendPlayerLevelNum",
    ) && check_selector("div#responsive_page_template_content")) {
        return Err(ProfileError::SelectorError(String::from_str("invalid selector expression")));
    }
    let avatar: String = match avatar_last_child_src(markup, "div.playerAvatarAutoSizeInner") {
        None => {
            // unreachable: the selector was accepted just above
            proof {
                assert(false);
            }
            return Err(
                ProfileError::SelectorError(String::from_str("invalid selector expression")),
            );
        },
        Some(None) => {
            return Err(
                ProfileError::ExtractionError(String::from_str("avatar element not found")),
            );
        },
        Some(Some(att)) => match att {
            Some(s) => s,
            None => String::from_str("none"),
        },
    };
    let lvl: String = match level_inner_html(markup, "span.friendPlayerLevelNum") {
        None => {
            // unreachable: the selector was accepted just above
            proof {
                assert(false);
            }
            return Err(
                ProfileError::SelectorError(String::from_str("invalid selector expression")),
            );
        },
        Some(None) => {
            return Err(
                ProfileError::ExtractionError(String::from_str("level element not found")),
            );
        },
        Some(Some(l)) => l,
    };
    decode_profile(markup, avatar.as_str(), lvl.as_str())
}

} // verus!
