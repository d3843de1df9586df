use crate::builder::{BuilderModel, StyleBuilder};
use crate::style::{Style, StyleModel};
use vstd::prelude::*;

verus! {

/// The named, ready-made styles. Each shows keys and indices in paths and
/// emits only scalar leaves.
#[derive(Debug, Clone, Copy, PartialEq, Eq)]
pub enum PresetStyle {
    /// Paths such as `["some_key"][123]`.
    SquareBrackets,
    /// Paths such as `.some_key[123]`.
    CommonJs,
    /// Paths such as `->'some_key'->123`.
    PostgresJson,
}

impl PresetStyle {
    /// The builder configuration of this preset, every option set.
    pub open spec fn builder_model(self) -> BuilderModel {
        let (op, os, ap, asx) = match self {
            PresetStyle::SquareBrackets => ("[\""@, "\"]"@, "["@, "]"@),
            PresetStyle::CommonJs => ("."@, ""@, "["@, "]"@),
            PresetStyle::PostgresJson => ("->'"@, "'"@, "->"@, ""@),
        };
        BuilderModel {
            object_key_prefix: Some(op),
            object_key_suffix: Some(os),
            object_keys_in_path: Some(true),
            skip_object_parents: Some(true),
            array_key_prefix: Some(ap),
            array_key_suffix: Some(asx),
            array_keys_in_path: Some(true),
            skip_array_parents: Some(true),
        }
    }

    /// The style of this preset.
    pub open spec fn model(self) -> StyleModel {
        self.builder_model().resolve()
    }

    /// A builder holding this preset, from which single options can be
    /// overridden or reset.
    pub fn to_builder(self) -> (r: StyleBuilder)
        ensures
            r@ == self.builder_model(),
    {
        let b = StyleBuilder::new();
        let b = match self {
            PresetStyle::SquareBrackets => b
                .object_key_prefix("[\"")
                .object_key_suffix("\"]")
                .array_key_prefix("[")
                .array_key_suffix("]"),
            PresetStyle::CommonJs => b
                .object_key_prefix(".")
                .object_key_suffix("")
                .array_key_prefix("[")
                .array_key_suffix("]"),
            PresetStyle::PostgresJson => b
                .object_key_prefix("->'")
                .object_key_suffix("'")
                .array_key_prefix("->")
                .array_key_suffix(""),
        };
        b.show_object_keys_in_path()
            .skip_object_parents()
            .show_array_keys_in_path()
            .skip_array_parents()
    }

    /// The style of this preset.
    pub fn to_style(self) -> (r: Style)
        ensures
            r@ == self.model(),
    {
        self.to_builder().build()
    }
}

} // verus!
