//! Domain types of the reader: identifiers that cannot be mixed up,
//! roles and setting keys as enums, validated strings, and the state of a
//! book's content.

use crate::text::{chars_match_at, chars_of, run_at};
use vstd::prelude::*;
use vstd::string::StringExecFns;

verus! {

/// Identifier that the database gives a book.
#[derive(Debug, Clone, Copy, PartialEq, Eq, Hash, Structural)]
pub struct BookId(i64);

impl View for BookId {
    type V = i64;

    closed spec fn view(&self) -> i64 {
        self.0
    }
}

impl BookId {
    pub fn new(id: i64) -> (r: Self)
        ensures
            r@ == id,
    {
        BookId(id)
    }

    pub fn get(self) -> (r: i64)
        ensures
            r == self@,
    {
        self.0
    }
}

/// Identifier that Project Gutenberg gives a book.
#[derive(Debug, Clone, Copy, PartialEq, Eq, Hash, Structural)]
pub struct GutenbergId(i64);

impl View for GutenbergId {
    type V = i64;

    closed spec fn view(&self) -> i64 {
        self.0
    }
}

impl GutenbergId {
    pub fn new(id: i64) -> (r: Self)
        ensures
            r@ == id,
    {
        GutenbergId(id)
    }

    pub fn get(self) -> (r: i64)
        ensures
            r == self@,
    {
        self.0
    }
}

/// Identifier of a highlight.
#[derive(Debug, Clone, Copy, PartialEq, Eq, Hash, Structural)]
pub struct HighlightId(i64);

impl View for HighlightId {
    type V = i64;

    closed spec fn view(&self) -> i64 {
        self.0
    }
}

impl HighlightId {
    pub fn new(id: i64) -> (r: Self)
        ensures
            r@ == id,
    {
        HighlightId(id)
    }

    pub fn get(self) -> (r: i64)
        ensures
            r == self@,
    {
        self.0
    }
}

/// Identifier of a chat thread.
#[derive(Debug, Clone, Copy, PartialEq, Eq, Hash, Structural)]
pub struct ThreadId(i64);

impl View for ThreadId {
    type V = i64;

    closed spec fn view(&self) -> i64 {
        self.0
    }
}

impl ThreadId {
    pub fn new(id: i64) -> (r: Self)
        ensures
            r@ == id,
    {
        ThreadId(id)
    }

    pub fn get(self) -> (r: i64)
        ensures
            r == self@,
    {
        self.0
    }
}

/// Identifier of a message.
#[derive(Debug, Clone, Copy, PartialEq, Eq, Hash, Structural)]
pub struct MessageId(i64);

impl View for MessageId {
    type V = i64;

    closed spec fn view(&self) -> i64 {
        self.0
    }
}

impl MessageId {
    pub fn new(id: i64) -> (r: Self)
        ensures
            r@ == id,
    {
        MessageId(id)
    }

    pub fn get(self) -> (r: i64)
        ensures
            r == self@,
    {
        self.0
    }
}

/// Why a value was refused.
#[derive(Debug, Clone)]
pub enum TypeValidationError {
    InvalidRole(String),
    EmptyCfi,
    InvalidCfiFormat(String),
    EmptyDomPath,
    EmptyUrl,
    InvalidUrlScheme(String),
    InvalidSettingKey(String),
}

/// The sentence that tells the user of a refusal.
pub open spec fn refusal_message(e: TypeValidationError) -> Seq<char> {
    match e {
        TypeValidationError::InvalidRole(name) => "Invalid message role: "@ + name@
            + " (expected: user, assistant, or system)"@,
        TypeValidationError::EmptyCfi => "Empty CFI"@,
        TypeValidationError::InvalidCfiFormat(text) => "Invalid CFI format: "@ + text@
            + " (must start with 'epubcfi(')"@,
        TypeValidationError::EmptyDomPath => "Empty DOM path"@,
        TypeValidationError::EmptyUrl => "Empty URL"@,
        TypeValidationError::InvalidUrlScheme(text) => "Invalid URL scheme: "@ + text@
            + " (must start with http:// or https://)"@,
        TypeValidationError::InvalidSettingKey(name) => "Invalid setting key: "@ + name@,
    }
}

fn between(before: &str, middle: &str, after: &str) -> (r: String)
    ensures
        r@ == before@ + middle@ + after@,
{
    let mut r = String::from_str(before);
    r.append(middle);
    r.append(after);
    r
}

impl TypeValidationError {
    /// A sentence for the user.
    pub fn message(&self) -> (r: String)
        ensures
            r@ == refusal_message(*self),
    {
        match self {
            TypeValidationError::InvalidRole(name) => between(
                "Invalid message role: ",
                name.as_str(),
                " (expected: user, assistant, or system)",
            ),
            TypeValidationError::EmptyCfi => String::from_str("Empty CFI"),
            TypeValidationError::InvalidCfiFormat(text) => between(
                "Invalid CFI format: ",
                text.as_str(),
                " (must start with 'epubcfi(')",
            ),
            TypeValidationError::EmptyDomPath => String::from_str("Empty DOM path"),
            TypeValidationError::EmptyUrl => String::from_str("Empty URL"),
            TypeValidationError::InvalidUrlScheme(text) => between(
                "Invalid URL scheme: ",
                text.as_str(),
                " (must start with http:// or https://)",
            ),
            TypeValidationError::InvalidSettingKey(name) => {
                let mut r = String::from_str("Invalid setting key: ");
                r.append(name.as_str());
                r
            },
        }
    }
}

/// Tests whether two texts are the same.
pub fn same_text(a: &str, b: &str) -> (r: bool)
    ensures
        r == (a@ == b@),
{
    let x = a.to_owned();
    let y = b.to_owned();
    x == y
}

/// Whether `s` begins with `prefix`.
pub open spec fn has_prefix(s: Seq<char>, prefix: Seq<char>) -> bool {
    run_at(s, prefix, 0)
}

/// Tests whether a text begins with a prefix.
pub fn begins_with(s: &str, prefix: &str) -> (r: bool)
    ensures
        r == has_prefix(s@, prefix@),
{
    let hay = chars_of(s);
    let needle = chars_of(prefix);
    chars_match_at(hay.as_slice(), needle.as_slice(), 0)
}

/// Who wrote a message.
#[derive(Debug, Clone, Copy, PartialEq, Eq, Structural)]
pub enum MessageRole {
    User,
    Assistant,
    System,
}

/// The name of a role.
pub open spec fn role_name(role: MessageRole) -> Seq<char> {
    match role {
        MessageRole::User => "user"@,
        MessageRole::Assistant => "assistant"@,
        MessageRole::System => "system"@,
    }
}

impl MessageRole {
    pub fn as_str(self) -> (r: &'static str)
        ensures
            r@ == role_name(self),
    {
        match self {
            MessageRole::User => "user",
            MessageRole::Assistant => "assistant",
            MessageRole::System => "system",
        }
    }

    /// The role of a name, or `InvalidRole` with the name where it names
    /// none.
    pub fn parse(s: &str) -> (r: Result<MessageRole, TypeValidationError>)
        ensures
            match r {
                Ok(role) => s@ == role_name(role),
                Err(TypeValidationError::InvalidRole(name)) => name@ == s@ && s@ != role_name(
                    MessageRole::User,
                ) && s@ != role_name(MessageRole::Assistant) && s@ != role_name(
                    MessageRole::System,
                ),
                Err(_) => false,
            },
    {
        if same_text(s, "user") {
            Ok(MessageRole::User)
        } else if same_text(s, "assistant") {
            Ok(MessageRole::Assistant)
        } else if same_text(s, "system") {
            Ok(MessageRole::System)
        } else {
            Err(TypeValidationError::InvalidRole(String::from_str(s)))
        }
    }
}

impl std::str::FromStr for MessageRole {
    type Err = TypeValidationError;

    /// The role of a name, as `parse` gives it.
    fn from_str(s: &str) -> (r: Result<Self, Self::Err>)
        ensures
            match r {
                Ok(role) => s@ == role_name(role),
                Err(TypeValidationError::InvalidRole(name)) => name@ == s@ && s@ != role_name(
                    MessageRole::User,
                ) && s@ != role_name(MessageRole::Assistant) && s@ != role_name(
                    MessageRole::System,
                ),
                Err(_) => false,
            },
    {
        MessageRole::parse(s)
    }
}

/// The three role names differ, so that a name has at most one role.
pub proof fn lemma_role_names_differ(a: MessageRole, b: MessageRole)
    ensures
        role_name(a) == role_name(b) ==> a == b,
{
    reveal_strlit("user");
    reveal_strlit("assistant");
    reveal_strlit("system");
    assert("user"@.len() == 4);
    assert("assistant"@.len() == 9);
    assert("system"@.len() == 6);
}

/// Whether a text has the form of a fragment identifier: it begins with
/// `epubcfi(`.
pub open spec fn is_cfi(s: Seq<char>) -> bool {
    has_prefix(s, "epubcfi("@)
}

/// Whether a text begins with `http://` or `https://`.
pub open spec fn is_web_address(s: Seq<char>) -> bool {
    has_prefix(s, "http://"@) || has_prefix(s, "https://"@)
}

/// An EPUB canonical fragment identifier.
#[derive(Debug, Clone, PartialEq, Eq)]
pub struct Cfi(String);

impl View for Cfi {
    type V = Seq<char>;

    closed spec fn view(&self) -> Seq<char> {
        self.0@
    }
}

impl Cfi {
    /// Takes a text as it is, for values that were validated before.
    pub fn new_unchecked(s: String) -> (r: Self)
        ensures
            r@ == s@,
    {
        Cfi(s)
    }

    /// Accepts a text that is not empty and begins with `epubcfi(`.
    pub fn new(s: String) -> (r: Result<Self, TypeValidationError>)
        ensures
            match r {
                Ok(cfi) => s@.len() > 0 && is_cfi(s@) && cfi@ == s@,
                Err(TypeValidationError::EmptyCfi) => s@.len() == 0,
                Err(TypeValidationError::InvalidCfiFormat(text)) => s@.len() > 0 && !is_cfi(s@)
                    && text@ == s@,
                Err(_) => false,
            },
    {
        if s.as_str().is_empty() {
            return Err(TypeValidationError::EmptyCfi);
        }
        if !begins_with(s.as_str(), "epubcfi(") {
            return Err(TypeValidationError::InvalidCfiFormat(s));
        }
        Ok(Cfi(s))
    }

    pub fn as_str(&self) -> (r: &str)
        ensures
            r@ == self@,
    {
        self.0.as_str()
    }

    pub fn into_string(self) -> (r: String)
        ensures
            r@ == self@,
    {
        self.0
    }
}

/// A path to a node of the document.
#[derive(Debug, Clone, PartialEq, Eq)]
pub struct DomPath(String);

impl View for DomPath {
    type V = Seq<char>;

    closed spec fn view(&self) -> Seq<char> {
        self.0@
    }
}

impl DomPath {
    /// Takes a text as it is, for values that were validated before.
    pub fn new_unchecked(s: String) -> (r: Self)
        ensures
            r@ == s@,
    {
        DomPath(s)
    }

    /// Accepts a text that is not empty.
    pub fn new(s: String) -> (r: Result<Self, TypeValidationError>)
        ensures
            match r {
                Ok(path) => s@.len() > 0 && path@ == s@,
                Err(TypeValidationError::EmptyDomPath) => s@.len() == 0,
                Err(_) => false,
            },
    {
        if s.as_str().is_empty() {
            return Err(TypeValidationError::EmptyDomPath);
        }
        Ok(DomPath(s))
    }

    pub fn as_str(&self) -> (r: &str)
        ensures
            r@ == self@,
    {
        self.0.as_str()
    }

    pub fn into_string(self) -> (r: String)
        ensures
            r@ == self@,
    {
        self.0
    }
}

/// An address with the scheme `http` or `https`.
#[derive(Debug, Clone, PartialEq, Eq)]
pub struct Url(String);

impl View for Url {
    type V = Seq<char>;

    closed spec fn view(&self) -> Seq<char> {
        self.0@
    }
}

impl Url {
    /// Takes a text as it is, for values that were validated before.
    pub fn new_unchecked(s: String) -> (r: Self)
        ensures
            r@ == s@,
    {
        Url(s)
    }

    /// Accepts a text that begins with `http://` or `https://`.
    pub fn new(s: String) -> (r: Result<Self, TypeValidationError>)
        ensures
            match r {
                Ok(url) => s@.len() > 0 && is_web_address(s@) && url@ == s@,
                Err(TypeValidationError::EmptyUrl) => s@.len() == 0,
                Err(TypeValidationError::InvalidUrlScheme(text)) => s@.len() > 0
                    && !is_web_address(s@) && text@ == s@,
                Err(_) => false,
            },
    {
        if s.as_str().is_empty() {
            return Err(TypeValidationError::EmptyUrl);
        }
        if !begins_with(s.as_str(), "http://") && !begins_with(s.as_str(), "https://") {
            return Err(TypeValidationError::InvalidUrlScheme(s));
        }
        Ok(Url(s))
    }

    pub fn as_str(&self) -> (r: &str)
        ensures
            r@ == self@,
    {
        self.0.as_str()
    }

    pub fn into_string(self) -> (r: String)
        ensures
            r@ == self@,
    {
        self.0
    }
}

/// The settings that the reader stores.
#[derive(Debug, Clone, Copy, PartialEq, Eq, Structural)]
pub enum SettingKey {
    OpenaiApiKey,
    PocketVoiceId,
    DefaultModel,
    DefaultVoice,
}

/// The name under which a setting is stored.
pub open spec fn setting_name(key: SettingKey) -> Seq<char> {
    match key {
        SettingKey::OpenaiApiKey => "openai_api_key"@,
        SettingKey::PocketVoiceId => "pocket_voice_id"@,
        SettingKey::DefaultModel => "default_model"@,
        SettingKey::DefaultVoice => "default_voice"@,
    }
}

impl SettingKey {
    pub fn as_str(self) -> (r: &'static str)
        ensures
            r@ == setting_name(self),
    {
        match self {
            SettingKey::OpenaiApiKey => "openai_api_key",
            SettingKey::PocketVoiceId => "pocket_voice_id",
            SettingKey::DefaultModel => "default_model",
            SettingKey::DefaultVoice => "default_voice",
        }
    }

    /// Every setting key, once.
    pub fn all() -> (r: Vec<SettingKey>)
        ensures
            r@ == seq![
                SettingKey::OpenaiApiKey,
                SettingKey::PocketVoiceId,
                SettingKey::DefaultModel,
                SettingKey::DefaultVoice,
            ],
            forall|key: SettingKey| r@.contains(key),
    {
        let r = vec![
            SettingKey::OpenaiApiKey,
            SettingKey::PocketVoiceId,
            SettingKey::DefaultModel,
            SettingKey::DefaultVoice,
        ];
        assert(r@[0] == SettingKey::OpenaiApiKey);
        assert(r@[1] == SettingKey::PocketVoiceId);
        assert(r@[2] == SettingKey::DefaultModel);
        assert(r@[3] == SettingKey::DefaultVoice);
        r
    }

    /// The key of a name, or `InvalidSettingKey` with the name where it
    /// names none.
    pub fn parse(s: &str) -> (r: Result<SettingKey, TypeValidationError>)
        ensures
            match r {
                Ok(key) => s@ == setting_name(key),
                Err(TypeValidationError::InvalidSettingKey(name)) => name@ == s@ && s@
                    != setting_name(SettingKey::OpenaiApiKey) && s@ != setting_name(
                    SettingKey::PocketVoiceId,
                ) && s@ != setting_name(SettingKey::DefaultModel) && s@ != setting_name(
                    SettingKey::DefaultVoice,
                ),
                Err(_) => false,
            },
    {
        if same_text(s, "openai_api_key") {
            Ok(SettingKey::OpenaiApiKey)
        } else if same_text(s, "pocket_voice_id") {
            Ok(SettingKey::PocketVoiceId)
        } else if same_text(s, "default_model") {
            Ok(SettingKey::DefaultModel)
        } else if same_text(s, "default_voice") {
            Ok(SettingKey::DefaultVoice)
        } else {
            Err(TypeValidationError::InvalidSettingKey(String::from_str(s)))
        }
    }
}

impl std::str::FromStr for SettingKey {
    type Err = TypeValidationError;

    /// The key of a name, as `parse` gives it.
    fn from_str(s: &str) -> (r: Result<Self, Self::Err>)
        ensures
            match r {
                Ok(key) => s@ == setting_name(key),
                Err(TypeValidationError::InvalidSettingKey(name)) => name@ == s@ && s@
                    != setting_name(SettingKey::OpenaiApiKey) && s@ != setting_name(
                    SettingKey::PocketVoiceId,
                ) && s@ != setting_name(SettingKey::DefaultModel) && s@ != setting_name(
                    SettingKey::DefaultVoice,
                ),
                Err(_) => false,
            },
    {
        SettingKey::parse(s)
    }
}

/// The four setting names differ, so that a name has at most one key.
pub proof fn lemma_setting_names_differ(a: SettingKey, b: SettingKey)
    ensures
        setting_name(a) == setting_name(b) ==> a == b,
{
    reveal_strlit("openai_api_key");
    reveal_strlit("pocket_voice_id");
    reveal_strlit("default_model");
    reveal_strlit("default_voice");
    assert("openai_api_key"@.len() == 14);
    assert("pocket_voice_id"@.len() == 15);
    assert("default_model"@[8] == 'm');
    assert("default_voice"@[8] == 'v');
}

/// What a book has to show.
#[derive(Debug, Clone)]
pub enum BookContentState {
    /// HTML that can be shown.
    HtmlReady { html: String, first_image_index: Option<i32> },
    /// A container that has not been decoded yet.
    NeedsExtraction { mobi_data: Vec<u8> },
    /// HTML that is corrupt, and the container to make it from again.
    NeedsRegeneration { mobi_data: Vec<u8>, corrupt_html: String },
    /// Nothing at all.
    MissingContent,
}

impl BookContentState {
    /// Whether there is HTML to show.
    pub fn has_html_ready(&self) -> (r: bool)
        ensures
            r == (self is HtmlReady),
    {
        match self {
            BookContentState::HtmlReady { .. } => true,
            _ => false,
        }
    }

    /// Whether the container has to be decoded, for the first time or
    /// again.
    pub fn needs_processing(&self) -> (r: bool)
        ensures
            r == (self is NeedsExtraction || self is NeedsRegeneration),
    {
        match self {
            BookContentState::NeedsExtraction { .. } => true,
            BookContentState::NeedsRegeneration { .. } => true,
            _ => false,
        }
    }

    /// The HTML, where it can be shown.
    pub fn html(&self) -> (r: Option<&str>)
        ensures
            match r {
                Some(text) => self is HtmlReady && text@ == self->html@,
                None => !(self is HtmlReady),
            },
    {
        match self {
            BookContentState::HtmlReady { html, .. } => Some(html.as_str()),
            _ => None,
        }
    }

    /// The container, where there is one to decode.
    pub fn mobi_data(&self) -> (r: Option<&[u8]>)
        ensures
            match r {
                Some(data) => (self matches BookContentState::NeedsExtraction { mobi_data }
                    && data@ == mobi_data@) || (self matches BookContentState::NeedsRegeneration {
                    mobi_data,
                    ..
                } && data@ == mobi_data@),
                None => !(self is NeedsExtraction || self is NeedsRegeneration),
            },
    {
        match self {
            BookContentState::NeedsExtraction { mobi_data } => Some(mobi_data.as_slice()),
            BookContentState::NeedsRegeneration { mobi_data, .. } => Some(mobi_data.as_slice()),
            _ => None,
        }
    }
}

} // verus!
