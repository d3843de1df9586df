use crate::style::{ConfigurationError, Style, StyleModel};
use vstd::prelude::*;

verus! {

/// The mathematical content of a [`StyleBuilder`]: `None` marks an option
/// that is unset and resolves to its default at build time.
pub struct BuilderModel {
    pub object_key_prefix: Option<Seq<char>>,
    pub object_key_suffix: Option<Seq<char>>,
    pub object_keys_in_path: Option<bool>,
    pub skip_object_parents: Option<bool>,
    pub array_key_prefix: Option<Seq<char>>,
    pub array_key_suffix: Option<Seq<char>>,
    pub array_keys_in_path: Option<bool>,
    pub skip_array_parents: Option<bool>,
}

/// Default object key prefix: `["`.
pub open spec fn default_object_prefix_text() -> Seq<char> {
    "[\""@
}

/// Default object key suffix: `"]`.
pub open spec fn default_object_suffix_text() -> Seq<char> {
    "\"]"@
}

/// Default array key prefix: `[`.
pub open spec fn default_array_prefix_text() -> Seq<char> {
    "["@
}

/// Default array key suffix: `]`.
pub open spec fn default_array_suffix_text() -> Seq<char> {
    "]"@
}

impl BuilderModel {
    /// The builder with every option unset.
    pub open spec fn unset() -> BuilderModel {
        BuilderModel {
            object_key_prefix: None,
            object_key_suffix: None,
            object_keys_in_path: None,
            skip_object_parents: None,
            array_key_prefix: None,
            array_key_suffix: None,
            array_keys_in_path: None,
            skip_array_parents: None,
        }
    }

    /// The style built from this configuration: keys and indices are shown
    /// and parents skipped unless set otherwise; delimiters default to the
    /// square-bracket form.
    pub open spec fn resolve(self) -> StyleModel {
        StyleModel {
            object_key_prefix: self.object_key_prefix.unwrap_or(default_object_prefix_text()),
            object_key_suffix: self.object_key_suffix.unwrap_or(default_object_suffix_text()),
            object_keys_in_path: self.object_keys_in_path.unwrap_or(true),
            skip_object_parents: self.skip_object_parents.unwrap_or(true),
            array_key_prefix: self.array_key_prefix.unwrap_or(default_array_prefix_text()),
            array_key_suffix: self.array_key_suffix.unwrap_or(default_array_suffix_text()),
            array_keys_in_path: self.array_keys_in_path.unwrap_or(true),
            skip_array_parents: self.skip_array_parents.unwrap_or(true),
        }
    }
}

/// A chainable configuration from which a [`Style`] is built.
///
/// Every option can be set, or reset to its default, on its own.
#[derive(Debug)]
pub struct StyleBuilder {
    object_key_prefix: Option<String>,
    object_key_suffix: Option<String>,
    object_keys_in_path: Option<bool>,
    skip_object_parents: Option<bool>,
    array_key_prefix: Option<String>,
    array_key_suffix: Option<String>,
    array_keys_in_path: Option<bool>,
    skip_array_parents: Option<bool>,
}

impl View for StyleBuilder {
    type V = BuilderModel;

    closed spec fn view(&self) -> BuilderModel {
        BuilderModel {
            object_key_prefix: self.object_key_prefix.deep_view(),
            object_key_suffix: self.object_key_suffix.deep_view(),
            object_keys_in_path: self.object_keys_in_path,
            skip_object_parents: self.skip_object_parents,
            array_key_prefix: self.array_key_prefix.deep_view(),
            array_key_suffix: self.array_key_suffix.deep_view(),
            array_keys_in_path: self.array_keys_in_path,
            skip_array_parents: self.skip_array_parents,
        }
    }
}

/// The configured text, or `default` where none is configured.
fn text_or(text: &Option<String>, default: &str) -> (r: String)
    ensures
        r@ == text.deep_view().unwrap_or(default@),
{
    match text {
        Some(t) => t.clone(),
        None => String::from_str(default),
    }
}

/// The configured flag, or `default` where none is configured.
fn flag_or(flag: Option<bool>, default: bool) -> (r: bool)
    ensures
        r == flag.unwrap_or(default),
{
    match flag {
        Some(f) => f,
        None => default,
    }
}

impl StyleBuilder {
    /// A builder with every option unset.
    pub fn new() -> (r: StyleBuilder)
        ensures
            r@ == BuilderModel::unset(),
    {
        StyleBuilder {
            object_key_prefix: None,
            object_key_suffix: None,
            object_keys_in_path: None,
            skip_object_parents: None,
            array_key_prefix: None,
            array_key_suffix: None,
            array_keys_in_path: None,
            skip_array_parents: None,
        }
    }

    /// Resets the text written before an object key to its default.
    pub fn default_object_key_prefix(self) -> (r: StyleBuilder)
        ensures
            r@ == (BuilderModel { object_key_prefix: None, ..self@ }),
    {
        let mut b = self;
        b.object_key_prefix = None;
        b
    }

    /// Sets the text written before an object key.
    pub fn object_key_prefix(self, value: &str) -> (r: StyleBuilder)
        ensures
            r@ == (BuilderModel { object_key_prefix: Some(value@), ..self@ }),
    {
        let mut b = self;
        b.object_key_prefix = Some(String::from_str(value));
        b
    }

    /// Resets the text written after an object key to its default.
    pub fn default_object_key_suffix(self) -> (r: StyleBuilder)
        ensures
            r@ == (BuilderModel { object_key_suffix: None, ..self@ }),
    {
        let mut b = self;
        b.object_key_suffix = None;
        b
    }

    /// Sets the text written after an object key.
    pub fn object_key_suffix(self, value: &str) -> (r: StyleBuilder)
        ensures
            r@ == (BuilderModel { object_key_suffix: Some(value@), ..self@ }),
    {
        let mut b = self;
        b.object_key_suffix = Some(String::from_str(value));
        b
    }

    /// Resets whether object keys are written in paths (default: they are).
    pub fn default_object_keys_in_path(self) -> (r: StyleBuilder)
        ensures
            r@ == (BuilderModel { object_keys_in_path: None, ..self@ }),
    {
        let mut b = self;
        b.object_keys_in_path = None;
        b
    }

    /// Writes object keys between their delimiters in paths.
    pub fn show_object_keys_in_path(self) -> (r: StyleBuilder)
        ensures
            r@ == (BuilderModel { object_keys_in_path: Some(true), ..self@ }),
    {
        let mut b = self;
        b.object_keys_in_path = Some(true);
        b
    }

    /// Leaves object keys out of paths, keeping their delimiters.
    pub fn hide_object_keys_in_path(self) -> (r: StyleBuilder)
        ensures
            r@ == (BuilderModel { object_keys_in_path: Some(false), ..self@ }),
    {
        let mut b = self;
        b.object_keys_in_path = Some(false);
        b
    }

    /// Resets whether object nodes are emitted (default: they are skipped).
    pub fn default_object_parents(self) -> (r: StyleBuilder)
        ensures
            r@ == (BuilderModel { skip_object_parents: None, ..self@ }),
    {
        let mut b = self;
        b.skip_object_parents = None;
        b
    }

    /// Leaves object nodes out of the output; their descendants still come.
    pub fn skip_object_parents(self) -> (r: StyleBuilder)
        ensures
            r@ == (BuilderModel { skip_object_parents: Some(true), ..self@ }),
    {
        let mut b = self;
        b.skip_object_parents = Some(true);
        b
    }

    /// Emits object nodes before their descendants.
    pub fn include_object_parents(self) -> (r: StyleBuilder)
        ensures
            r@ == (BuilderModel { skip_object_parents: Some(false), ..self@ }),
    {
        let mut b = self;
        b.skip_object_parents = Some(false);
        b
    }

    /// Resets the text written before an array index to its default.
    pub fn default_array_key_prefix(self) -> (r: StyleBuilder)
        ensures
            r@ == (BuilderModel { array_key_prefix: None, ..self@ }),
    {
        let mut b = self;
        b.array_key_prefix = None;
        b
    }

    /// Sets the text written before an array index.
    pub fn array_key_prefix(self, value: &str) -> (r: StyleBuilder)
        ensures
            r@ == (BuilderModel { array_key_prefix: Some(value@), ..self@ }),
    {
        let mut b = self;
        b.array_key_prefix = Some(String::from_str(value));
        b
    }

    /// Resets the text written after an array index to its default.
    pub fn default_array_key_suffix(self) -> (r: StyleBuilder)
        ensures
            r@ == (BuilderModel { array_key_suffix: None, ..self@ }),
    {
        let mut b = self;
        b.array_key_suffix = None;
        b
    }

    /// Sets the text written after an array index.
    pub fn array_key_suffix(self, value: &str) -> (r: StyleBuilder)
        ensures
            r@ == (BuilderModel { array_key_suffix: Some(value@), ..self@ }),
    {
        let mut b = self;
        b.array_key_suffix = Some(String::from_str(value));
        b
    }

    /// Resets whether array indices are written in paths (default: they are).
    pub fn default_array_keys_in_path(self) -> (r: StyleBuilder)
        ensures
            r@ == (BuilderModel { array_keys_in_path: None, ..self@ }),
    {
        let mut b = self;
        b.array_keys_in_path = None;
        b
    }

    /// Writes array indices between their delimiters in paths.
    pub fn show_array_keys_in_path(self) -> (r: StyleBuilder)
        ensures
            r@ == (BuilderModel { array_keys_in_path: Some(true), ..self@ }),
    {
        let mut b = self;
        b.array_keys_in_path = Some(true);
        b
    }

    /// Leaves array indices out of paths, keeping their delimiters; `indices` still records them.
    pub fn hide_array_keys_in_path(self) -> (r: StyleBuilder)
        ensures
            r@ == (BuilderModel { array_keys_in_path: Some(false), ..self@ }),
    {
        let mut b = self;
        b.array_keys_in_path = Some(false);
        b
    }

    /// Resets whether array nodes are emitted (default: they are skipped).
    pub fn default_array_parents(self) -> (r: StyleBuilder)
        ensures
            r@ == (BuilderModel { skip_array_parents: None, ..self@ }),
    {
        let mut b = self;
        b.skip_array_parents = None;
        b
    }

    /// Leaves array nodes out of the output; their descendants still come.
    pub fn skip_array_parents(self) -> (r: StyleBuilder)
        ensures
            r@ == (BuilderModel { skip_array_parents: Some(true), ..self@ }),
    {
        let mut b = self;
        b.skip_array_parents = Some(true);
        b
    }

    /// Emits array nodes before their descendants.
    pub fn include_array_parents(self) -> (r: StyleBuilder)
        ensures
            r@ == (BuilderModel { skip_array_parents: Some(false), ..self@ }),
    {
        let mut b = self;
        b.skip_array_parents = Some(false);
        b
    }

    /// Writes array indices in paths; the same as `show_array_keys_in_path`.
    pub fn show_indices_in_path(self) -> (r: StyleBuilder)
        ensures
            r@ == (BuilderModel { array_keys_in_path: Some(true), ..self@ }),
    {
        let mut b = self;
        b.array_keys_in_path = Some(true);
        b
    }

    /// Leaves array indices out of paths; the same as `hide_array_keys_in_path`.
    pub fn hide_indices_in_path(self) -> (r: StyleBuilder)
        ensures
            r@ == (BuilderModel { array_keys_in_path: Some(false), ..self@ }),
    {
        let mut b = self;
        b.array_keys_in_path = Some(false);
        b
    }

    /// Leaves both object and array nodes out of the output.
    pub fn skip_parents(self) -> (r: StyleBuilder)
        ensures
            r@ == (BuilderModel { skip_object_parents: Some(true), skip_array_parents: Some(true), ..self@ }),
    {
        let mut b = self;
        b.skip_object_parents = Some(true);
        b.skip_array_parents = Some(true);
        b
    }

    /// Emits both object and array nodes before their descendants.
    pub fn show_parents(self) -> (r: StyleBuilder)
        ensures
            r@ == (BuilderModel { skip_object_parents: Some(false), skip_array_parents: Some(false), ..self@ }),
    {
        let mut b = self;
        b.skip_object_parents = Some(false);
        b.skip_array_parents = Some(false);
        b
    }

    /// Builds the style, resolving every unset option to its default.
    pub fn build(&self) -> (r: Style)
        ensures
            r@ == self@.resolve(),
    {
        Style::from_parts(
            text_or(&self.object_key_prefix, "[\""),
            text_or(&self.object_key_suffix, "\"]"),
            flag_or(self.object_keys_in_path, true),
            flag_or(self.skip_object_parents, true),
            text_or(&self.array_key_prefix, "["),
            text_or(&self.array_key_suffix, "]"),
            flag_or(self.array_keys_in_path, true),
            flag_or(self.skip_array_parents, true),
        )
    }

    /// Builds the style, refusing a configuration under which some step of a
    /// path would render as no text at all.
    pub fn try_build(&self) -> (r: Result<Style, ConfigurationError>)
        ensures
            match self@.resolve().configuration_error() {
                None => r matches Ok(s) && s@ == self@.resolve(),
                Some(e) => r matches Err(f) && f == e,
            },
    {
        let style = self.build();
        match style.configuration_error() {
            None => Ok(style),
            Some(e) => Err(e),
        }
    }
}

} // verus!
