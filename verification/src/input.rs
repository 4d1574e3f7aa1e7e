//! The input configuration: a JSON document that gives the policy template and the
//! keys for its placeholders.
//!
//! The field `policy` holds the template. The field `pubkey1` holds the value for
//! the placeholder `$MY_KEY`, the field `pubkey2` the value for `$OTHER_KEY`. A key
//! is required only where the template mentions its placeholder.

use crate::error::{InputError, InputErrorView};
use crate::template::{bindings_of, mentions, resolve, resolved, template_mentions, Binding, BindingView};
use vstd::prelude::*;

verus! {

/// serde_json's value: read only through the two functions below.
#[verifier::external_type_specification]
#[verifier::external_body]
pub struct ExJsonValue(serde_json::Value);

/// serde_json's error: carried through and read only for its message.
#[verifier::external_type_specification]
#[verifier::external_body]
pub struct ExJsonError(serde_json::Error);

/// What serde_json's parser makes of `text`: the value, or the error with which it
/// rejects a text that is no JSON document.
pub uninterp spec fn json_document(text: Seq<char>) -> Result<
    serde_json::Value,
    serde_json::Error,
>;

/// What the `Display` impl of serde_json's error writes of `error`.
pub uninterp spec fn json_message(error: serde_json::Error) -> Seq<char>;

/// The text of the member `key` of `document`, where the document is an object
/// that has such a member and the member is a string.
pub uninterp spec fn json_text(document: serde_json::Value, key: Seq<char>) -> Option<Seq<char>>;

/// Calls `serde_json::from_str` for a `Value`. The parser is a function of the text
/// alone, so its outcome has a name; nothing is said of which texts it accepts.
#[verifier::external_body]
fn parse_document(text: &str) -> (outcome: Result<serde_json::Value, serde_json::Error>)
    ensures
        outcome == json_document(text@),
{
    serde_json::from_str(text)
}

/// Writes serde_json's error with its `Display` impl, which writes the same of the
/// same error.
#[verifier::external_body]
fn json_refusal(error: &serde_json::Error) -> (message: String)
    ensures
        message@ == json_message(*error),
{
    error.to_string()
}

/// Indexes the value by `key`, which gives null for anything but a member of an
/// object, and calls `Value::as_str` on what it finds.
#[verifier::external_body]
fn member_text(document: &serde_json::Value, key: &str) -> (text: Option<String>)
    ensures
        text is Some <==> json_text(*document, key@) is Some,
        text matches Some(t) ==> json_text(*document, key@) == Some(t@),
{
    document[key].as_str().map(|text| text.to_owned())
}

/// What the configuration gives: each field is there or not.
#[derive(Clone, Debug, PartialEq, Eq)]
pub struct InputConfig {
    /// The field `pubkey1`: the value for `$MY_KEY`.
    pub my_key: Option<String>,
    /// The field `pubkey2`: the value for `$OTHER_KEY`.
    pub other_key: Option<String>,
    /// The field `policy`: the policy template.
    pub policy: Option<String>,
}

/// The mathematical value of an [`InputConfig`].
pub ghost struct InputConfigView {
    pub my_key: Option<Seq<char>>,
    pub other_key: Option<Seq<char>>,
    pub policy: Option<Seq<char>>,
}

/// The text of an optional string.
pub open spec fn text_of(field: Option<String>) -> Option<Seq<char>> {
    match field {
        Some(text) => Some(text@),
        None => None,
    }
}

impl View for InputConfig {
    type V = InputConfigView;

    open spec fn view(&self) -> InputConfigView {
        InputConfigView {
            my_key: text_of(self.my_key),
            other_key: text_of(self.other_key),
            policy: text_of(self.policy),
        }
    }
}

/// The configuration that the JSON text `document` gives; or, where it is no JSON
/// at all, the parser's message.
pub open spec fn config_of(document: Seq<char>) -> Result<InputConfigView, Seq<char>> {
    match json_document(document) {
        Ok(value) => Ok(
            InputConfigView {
                my_key: json_text(value, "pubkey1"@),
                other_key: json_text(value, "pubkey2"@),
                policy: json_text(value, "policy"@),
            },
        ),
        Err(error) => Err(json_message(error)),
    }
}

/// Reads the configuration from the text of a JSON document.
///
/// A text that is no JSON document is malformed, and the error carries the parser's
/// message; a field that is missing, or is no string, is simply not there.
pub fn read_config(document: &str) -> (outcome: Result<InputConfig, InputError>)
    ensures
        match config_of(document@) {
            Ok(given) => outcome matches Ok(config) && config@ == given,
            Err(cause) => outcome matches Err(InputError::Malformed(message)) && message@
                == cause,
        },
{
    match parse_document(document) {
        Ok(value) => Ok(
            InputConfig {
                my_key: member_text(&value, "pubkey1"),
                other_key: member_text(&value, "pubkey2"),
                policy: member_text(&value, "policy"),
            },
        ),
        Err(error) => Err(InputError::Malformed(json_refusal(&error))),
    }
}

impl InputConfigView {
    /// A binding for each key that the configuration gives: `MY_KEY` first, then
    /// `OTHER_KEY`.
    pub open spec fn bindings(self) -> Seq<BindingView> {
        let first = match self.my_key {
            Some(value) => seq![BindingView { name: "MY_KEY"@, value }],
            None => Seq::empty(),
        };
        let second = match self.other_key {
            Some(value) => seq![BindingView { name: "OTHER_KEY"@, value }],
            None => Seq::empty(),
        };
        first + second
    }

    /// The resolved policy, or the name of the first field that is missed: the
    /// template itself, then the key for `$MY_KEY` if the template mentions it, then
    /// the key for `$OTHER_KEY` if the template mentions it.
    pub open spec fn resolution(self) -> Result<Seq<char>, Seq<char>> {
        match self.policy {
            None => Err("policy"@),
            Some(template) => if self.my_key is None && mentions(template, "MY_KEY"@) {
                Err("pubkey1"@)
            } else if self.other_key is None && mentions(template, "OTHER_KEY"@) {
                Err("pubkey2"@)
            } else {
                Ok(resolved(template, self.bindings()))
            },
        }
    }
}

/// Resolves the policy template of a configuration with the keys it gives.
///
/// The outcome is the resolved policy, or the name of the field that is missing.
pub fn resolve_policy(config: &InputConfig) -> (outcome: Result<String, InputError>)
    ensures
        match config@.resolution() {
            Ok(policy) => outcome matches Ok(text) && text@ == policy,
            Err(field) => outcome matches Err(InputError::MissingField(name)) && name@ == field,
        },
{
    let template = match &config.policy {
        Some(template) => template,
        None => {
            return Err(InputError::MissingField("policy".to_owned()));
        },
    };
    let mut bindings: Vec<Binding> = Vec::new();
    match &config.my_key {
        Some(value) => {
            bindings.push(Binding { name: "MY_KEY".to_owned(), value: value.clone() });
        },
        None => {
            if template_mentions(template.as_str(), "MY_KEY") {
                return Err(InputError::MissingField("pubkey1".to_owned()));
            }
        },
    }
    match &config.other_key {
        Some(value) => {
            bindings.push(Binding { name: "OTHER_KEY".to_owned(), value: value.clone() });
        },
        None => {
            if template_mentions(template.as_str(), "OTHER_KEY") {
                return Err(InputError::MissingField("pubkey2".to_owned()));
            }
        },
    }
    assert(bindings_of(bindings@) == config@.bindings());
    Ok(resolve(template.as_str(), &bindings))
}

/// What reading and resolving the JSON text `document` yields: the resolved policy,
/// or the input error.
pub open spec fn resolved_document(document: Seq<char>) -> Result<Seq<char>, InputErrorView> {
    match config_of(document) {
        Ok(config) => match config.resolution() {
            Ok(policy) => Ok(policy),
            Err(field) => Err(InputErrorView::MissingField(field)),
        },
        Err(cause) => Err(InputErrorView::Malformed(cause)),
    }
}

/// Reads the configuration from the text of a JSON document and resolves its policy.
pub fn resolve_document(document: &str) -> (outcome: Result<String, InputError>)
    ensures
        match resolved_document(document@) {
            Ok(policy) => outcome matches Ok(text) && text@ == policy,
            Err(fault) => outcome matches Err(error) && error@ == fault,
        },
{
    let config = read_config(document)?;
    resolve_policy(&config)
}

} // verus!
