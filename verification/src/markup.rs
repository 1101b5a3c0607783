//! Sanitising of markup that the host hands through.
//!
//! The sanitising itself is `ammonia`'s. This module holds the policy for
//! chat markup, the rule for link targets, and the proof that the policy is
//! one the sanitiser accepts.

use vstd::prelude::*;
use crate::text::{str_equal, text_view};

verus! {

/// The elements that chat markup may use.
pub const CHAT_TAGS: [&'static str; 21] = [
    "a", "b", "br", "center", "cite", "code", "del", "em", "strong", "h1", "h2", "h3", "h4",
    "h5", "h6", "hr", "ins", "small", "span", "strike", "div",
];

/// The element of chat markup that may carry attributes of its own.
pub const CHAT_LINK_TAG: &'static str = "a";

/// The attributes that a link in chat markup may carry.
pub const CHAT_LINK_ATTRIBUTES: [&'static str; 1] = ["href"];

/// The attributes that every element of chat markup may carry.
pub const CHAT_GENERIC_ATTRIBUTES: [&'static str; 1] = ["style"];

/// The element of chat markup whose classes are kept.
pub const CHAT_CLASS_TAG: &'static str = "span";

/// The classes that are kept on a `span` of chat markup.
pub const CHAT_SPAN_CLASSES: [&'static str; 71] = [
    "admin", "admin_channel", "airadio", "alert", "alien", "alium", "attack", "bad",
    "cciaasay", "centradio", "changeling", "comradio", "cult", "danger", "deadsay", "delvahhi",
    "deptradio", "developer", "devsay", "disarm", "elevated", "emote", "engradio", "entradio",
    "everyone", "good", "howto", "in", "info", "interface", "log_message", "looc", "medradio",
    "mod_channel", "moderate", "moderator", "motd", "name", "newscaster", "notice", "ooc",
    "oocimg", "other", "out", "passive", "pm", "prefix", "psychic", "radio", "reflex_shoot",
    "rose", "rough", "say", "say_quote", "sciradio", "secradio", "siiktau", "skrell", "soghun",
    "soghun_alt", "solcom", "srvradio", "supradio", "syndradio", "tajaran", "tajaran_signlang",
    "text_tag", "vaurca", "vox", "warning", "yassa",
];

/// The texts of a list of words.
pub open spec fn names(words: Seq<&'static str>) -> Seq<Seq<char>> {
    words.map_values(|word: &'static str| word@)
}

/// Whether the sanitiser accepts a policy that is its default policy with
/// the allowed elements, the attributes of one element, the attributes of
/// all elements and the classes of one element replaced. It refuses, by
/// panicking, a policy that
/// - allows `rel` on links or on all elements, since it writes `rel` itself;
/// - allows `class` on all elements, or on the element whose classes are
///   listed, since it filters classes itself;
/// - allows `script` or `style`, whose content it drops, as elements or
///   gives them attributes.
pub open spec fn policy_accepted(
    tags: Seq<Seq<char>>,
    attribute_tag: Seq<char>,
    attributes: Seq<Seq<char>>,
    generic_attributes: Seq<Seq<char>>,
    class_tag: Seq<char>,
) -> bool {
    &&& !generic_attributes.contains("rel"@)
    &&& !(attribute_tag == "a"@ && attributes.contains("rel"@))
    &&& !generic_attributes.contains("class"@)
    &&& !(attribute_tag == class_tag && attributes.contains("class"@))
    &&& !tags.contains("script"@)
    &&& !tags.contains("style"@)
    &&& attribute_tag != "script"@
    &&& attribute_tag != "style"@
}

/// The host of the absolute URL that `text` holds, as `Url::host_str` gives
/// it for what `Url::parse` returns; `None` where `text` does not parse or
/// the URL has no host.
pub uninterp spec fn url_host(text: Seq<char>) -> Option<Seq<char>>;

/// What `ammonia` makes of `data` under its default policy.
pub uninterp spec fn default_cleaned(data: Seq<char>) -> Seq<char>;

/// What `ammonia` makes of `data` under its default policy when every
/// attribute also passes through [`html_attribute_filter`].
pub uninterp spec fn document_cleaned(data: Seq<char>) -> Seq<char>;

/// What `ammonia` makes of `data` under its default policy with the allowed
/// elements, the attributes of one element, the attributes of all elements
/// and the classes of one element replaced by those given.
pub uninterp spec fn policy_cleaned(
    tags: Seq<Seq<char>>,
    attribute_tag: Seq<char>,
    attributes: Seq<Seq<char>>,
    generic_attributes: Seq<Seq<char>>,
    class_tag: Seq<char>,
    classes: Seq<Seq<char>>,
    data: Seq<char>,
) -> Seq<char>;

/// Calls `Url::parse` and, where it succeeds, `Url::host_str`. Nothing is
/// proved of the parser: the contract only names its result, `url_host`.
#[verifier::external_body]
fn parse_host(value: &str) -> (host: Option<String>)
    ensures
        text_view(host) == url_host(value@),
{
    match url::Url::parse(value) {
        Ok(parsed) => parsed.host_str().map(|host| host.to_owned()),
        Err(_) => None,
    }
}

/// Calls `Builder::clean` on a default `Builder` and returns the document
/// as text. The contract only names the result, `default_cleaned`.
#[verifier::external_body]
fn clean_default(data: &str) -> (cleaned: String)
    ensures
        cleaned@ == default_cleaned(data@),
{
    ammonia::Builder::default().clean(data).to_string()
}

/// Calls `Builder::clean` on a default `Builder` whose attribute filter is
/// [`html_attribute_filter`], and returns the document as text. The
/// contract only names the result, `document_cleaned`.
#[verifier::external_body]
fn clean_filtered(data: &str) -> (cleaned: String)
    ensures
        cleaned@ == document_cleaned(data@),
{
    let mut builder = ammonia::Builder::default();
    builder.attribute_filter(
        |element, attribute, value| html_attribute_filter(element, attribute, value).map(
            |kept| kept.into(),
        ),
    );
    builder.clean(data).to_string()
}

/// Sets `tags`, `tag_attributes`, `generic_attributes` and
/// `allowed_classes` on a new `Builder`, calls `Builder::clean` and returns
/// the document as text. `clean` panics on a policy that contradicts
/// itself; `policy_accepted` lists the checks it makes when all other
/// settings are the default ones, and the contract asks for them. The
/// result is only named, `policy_cleaned`.
#[verifier::external_body]
fn clean_with_policy(
    data: &str,
    tags: &[&'static str],
    attribute_tag: &'static str,
    attributes: &[&'static str],
    generic_attributes: &[&'static str],
    class_tag: &'static str,
    classes: &[&'static str],
) -> (cleaned: String)
    requires
        policy_accepted(
            names(tags@),
            attribute_tag@,
            names(attributes@),
            names(generic_attributes@),
            class_tag@,
        ),
    ensures
        cleaned@ == policy_cleaned(
            names(tags@),
            attribute_tag@,
            names(attributes@),
            names(generic_attributes@),
            class_tag@,
            names(classes@),
            data@,
        ),
{
    let mut builder = ammonia::Builder::new();
    builder.tags(tags.iter().copied().collect());
    builder.tag_attributes([(attribute_tag, attributes.iter().copied().collect())].into());
    builder.generic_attributes(generic_attributes.iter().copied().collect());
    builder.allowed_classes([(class_tag, classes.iter().copied().collect())].into());
    builder.clean(data).to_string()
}

/// What becomes of a link target, given the host that the target names: the
/// target is kept as it is when it names a host, and dropped otherwise.
pub open spec fn sanitized_url(value: Seq<char>, host: Option<Seq<char>>) -> Option<Seq<char>> {
    match host {
        Some(name) => if name.len() > 0 {
            Some(value)
        } else {
            None
        },
        None => None,
    }
}

/// What becomes of the value of an attribute: the target of a link is
/// sanitised, every other value is kept.
pub open spec fn filtered_attribute(
    element: Seq<char>,
    attribute: Seq<char>,
    value: Seq<char>,
) -> Option<Seq<char>> {
    if element == "a"@ && attribute == "href"@ {
        sanitized_url(value, url_host(value))
    } else {
        Some(value)
    }
}

/// Decides on a link target once its host is known: keeps the target when
/// `host` is a non-empty name and drops it otherwise.
pub fn keep_url_with_host(value: &str, host: Option<&str>) -> (kept: Option<String>)
    ensures
        text_view(kept) == sanitized_url(
            value@,
            match host {
                Some(name) => Some(name@),
                None => None,
            },
        ),
{
    match host {
        Some(name) => {
            if name.is_empty() {
                None
            } else {
                Some(value.to_owned())
            }
        },
        None => None,
    }
}

/// Sanitises a link target: only an absolute URL that names a host is kept.
pub fn url_sanitizer(value: &str) -> (kept: Option<String>)
    ensures
        text_view(kept) == sanitized_url(value@, url_host(value@)),
{
    match parse_host(value) {
        Some(host) => keep_url_with_host(value, Some(host.as_str())),
        None => keep_url_with_host(value, None),
    }
}

/// The attribute filter of document markup: returns the value that the
/// attribute is to have, or `None` to drop the attribute. The `href` of an
/// `a` goes through [`url_sanitizer`]; every other value is kept.
pub fn html_attribute_filter(element: &str, attribute: &str, value: &str) -> (kept: Option<String>)
    ensures
        text_view(kept) == filtered_attribute(element@, attribute@, value@),
{
    if str_equal(element, "a") && str_equal(attribute, "href") {
        url_sanitizer(value)
    } else {
        Some(value.to_owned())
    }
}

/// Sanitises markup under the sanitiser's default policy.
pub fn clean_html(data: &str) -> (cleaned: String)
    ensures
        cleaned@ == default_cleaned(data@),
{
    clean_default(data)
}

/// Sanitises the markup of a document: the default policy, with every
/// attribute passed through [`html_attribute_filter`].
pub fn clean_html_document(data: &str) -> (cleaned: String)
    ensures
        cleaned@ == document_cleaned(data@),
{
    clean_filtered(data)
}

/// The chat policy names neither `script` nor `style` among its elements.
proof fn lemma_chat_tags_are_harmless()
    ensures
        !names(CHAT_TAGS@).contains("script"@),
        !names(CHAT_TAGS@).contains("style"@),
{
    reveal_strlit("a");
    reveal_strlit("b");
    reveal_strlit("br");
    reveal_strlit("center");
    reveal_strlit("cite");
    reveal_strlit("code");
    reveal_strlit("del");
    reveal_strlit("em");
    reveal_strlit("strong");
    reveal_strlit("h1");
    reveal_strlit("h2");
    reveal_strlit("h3");
    reveal_strlit("h4");
    reveal_strlit("h5");
    reveal_strlit("h6");
    reveal_strlit("hr");
    reveal_strlit("ins");
    reveal_strlit("small");
    reveal_strlit("span");
    reveal_strlit("strike");
    reveal_strlit("div");
    reveal_strlit("script");
    reveal_strlit("style");
    assert forall|i: int| 0 <= i < 21 implies (#[trigger] CHAT_TAGS@[i])@ != "style"@ by {
        if CHAT_TAGS@[i]@.len() == 5 {
            assert(i == 17);
            assert(CHAT_TAGS@[i]@[1] == 'm');
        }
    }
    assert forall|i: int| 0 <= i < 21 implies (#[trigger] CHAT_TAGS@[i])@ != "script"@ by {
        if CHAT_TAGS@[i]@.len() == 6 {
            assert(i == 3 || i == 8 || i == 19);
            assert(CHAT_TAGS@[i]@[0] == 'c' || CHAT_TAGS@[i]@[1] == 't');
        }
    }
}

/// The chat policy is one that the sanitiser accepts.
pub proof fn lemma_chat_policy_is_accepted()
    ensures
        policy_accepted(
            names(CHAT_TAGS@),
            CHAT_LINK_TAG@,
            names(CHAT_LINK_ATTRIBUTES@),
            names(CHAT_GENERIC_ATTRIBUTES@),
            CHAT_CLASS_TAG@,
        ),
{
    lemma_chat_tags_are_harmless();
    reveal_strlit("a");
    reveal_strlit("span");
    reveal_strlit("href");
    reveal_strlit("style");
    reveal_strlit("script");
    reveal_strlit("rel");
    reveal_strlit("class");
    let link_attributes = names(CHAT_LINK_ATTRIBUTES@);
    let generic_attributes = names(CHAT_GENERIC_ATTRIBUTES@);
    assert(link_attributes.len() == 1 && link_attributes[0] == "href"@);
    assert(generic_attributes.len() == 1 && generic_attributes[0] == "style"@);
    assert("style"@[0] != "class"@[0]);
    assert(!generic_attributes.contains("rel"@));
    assert(!generic_attributes.contains("class"@));
    assert(!link_attributes.contains("rel"@));
    assert(!link_attributes.contains("class"@));
    assert(CHAT_LINK_TAG@ == "a"@);
    assert(CHAT_CLASS_TAG@ == "span"@);
    assert("a"@.len() == 1 && "span"@.len() == 4);
}

/// Sanitises chat markup from a trusted sender: only the elements of
/// `CHAT_TAGS` are kept, with `href` on links, `style` on every element,
/// and on a `span` the classes of `CHAT_SPAN_CLASSES`.
pub fn clean_html_chat_trusted(data: &str) -> (cleaned: String)
    ensures
        cleaned@ == policy_cleaned(
            names(CHAT_TAGS@),
            CHAT_LINK_TAG@,
            names(CHAT_LINK_ATTRIBUTES@),
            names(CHAT_GENERIC_ATTRIBUTES@),
            CHAT_CLASS_TAG@,
            names(CHAT_SPAN_CLASSES@),
            data@,
        ),
{
    proof {
        lemma_chat_policy_is_accepted();
    }
    clean_with_policy(
        data,
        CHAT_TAGS.as_slice(),
        CHAT_LINK_TAG,
        CHAT_LINK_ATTRIBUTES.as_slice(),
        CHAT_GENERIC_ATTRIBUTES.as_slice(),
        CHAT_CLASS_TAG,
        CHAT_SPAN_CLASSES.as_slice(),
    )
}

} // verus!
