use vstd::prelude::*;

verus! {

/// The decimal digit `d` (which is below ten) as a character.
pub open spec fn digit_char(d: nat) -> char {
    if d == 0 {
        '0'
    } else if d == 1 {
        '1'
    } else if d == 2 {
        '2'
    } else if d == 3 {
        '3'
    } else if d == 4 {
        '4'
    } else if d == 5 {
        '5'
    } else if d == 6 {
        '6'
    } else if d == 7 {
        '7'
    } else if d == 8 {
        '8'
    } else {
        '9'
    }
}

/// The decimal rendering of `n`, without sign or leading zeros.
pub open spec fn decimal(n: nat) -> Seq<char>
    decreases n,
{
    if n < 10 {
        seq![digit_char(n)]
    } else {
        decimal(n / 10) + seq![digit_char(n % 10)]
    }
}

/// The mathematical content of a [`Style`].
pub struct StyleModel {
    pub object_key_prefix: Seq<char>,
    pub object_key_suffix: Seq<char>,
    pub object_keys_in_path: bool,
    pub skip_object_parents: bool,
    pub array_key_prefix: Seq<char>,
    pub array_key_suffix: Seq<char>,
    pub array_keys_in_path: bool,
    pub skip_array_parents: bool,
}

impl StyleModel {
    /// Path of the member `key` of an object found at `parent`.
    pub open spec fn object_child(self, parent: Seq<char>, key: Seq<char>) -> Seq<char> {
        if self.object_keys_in_path {
            parent + self.object_key_prefix + key + self.object_key_suffix
        } else {
            parent + self.object_key_prefix + self.object_key_suffix
        }
    }

    /// Path of the item at `index` of an array found at `parent`.
    pub open spec fn array_child(self, parent: Seq<char>, index: nat) -> Seq<char> {
        if self.array_keys_in_path {
            parent + self.array_key_prefix + decimal(index) + self.array_key_suffix
        } else {
            parent + self.array_key_prefix + self.array_key_suffix
        }
    }
}

impl StyleModel {
    /// Whether an object member's step renders as no text at all, so that
    /// its path would equal its parent's.
    pub open spec fn object_step_is_empty(self) -> bool {
        !self.object_keys_in_path && self.object_key_prefix.len() == 0
            && self.object_key_suffix.len() == 0
    }

    /// Whether an array item's step renders as no text at all, so that its
    /// path would equal its parent's.
    pub open spec fn array_step_is_empty(self) -> bool {
        !self.array_keys_in_path && self.array_key_prefix.len() == 0
            && self.array_key_suffix.len() == 0
    }

    /// The reason this style is refused, if any; the object axis is checked first.
    pub open spec fn configuration_error(self) -> Option<ConfigurationError> {
        if self.object_step_is_empty() {
            Some(ConfigurationError::EmptyObjectStep)
        } else if self.array_step_is_empty() {
            Some(ConfigurationError::EmptyArrayStep)
        } else {
            None
        }
    }
}

/// Why a style configuration is refused when it is built.
#[derive(Debug, Clone, Copy, PartialEq, Eq)]
pub enum ConfigurationError {
    /// Object keys are hidden and both object delimiters are empty.
    EmptyObjectStep,
    /// Array indices are hidden and both array delimiters are empty.
    EmptyArrayStep,
}

/// An immutable path-rendering and emission policy.
///
/// Object members are rendered as `prefix + key + suffix` and array items as
/// `prefix + index + suffix`, appended to the parent's path; the key or index
/// text may be hidden, leaving only the delimiters. The two `skip_*` flags
/// decide whether object and array nodes are themselves emitted.
#[derive(Debug)]
pub struct Style {
    object_key_prefix: String,
    object_key_suffix: String,
    object_keys_in_path: bool,
    skip_object_parents: bool,
    array_key_prefix: String,
    array_key_suffix: String,
    array_keys_in_path: bool,
    skip_array_parents: bool,
}

impl View for Style {
    type V = StyleModel;

    closed spec fn view(&self) -> StyleModel {
        StyleModel {
            object_key_prefix: self.object_key_prefix@,
            object_key_suffix: self.object_key_suffix@,
            object_keys_in_path: self.object_keys_in_path,
            skip_object_parents: self.skip_object_parents,
            array_key_prefix: self.array_key_prefix@,
            array_key_suffix: self.array_key_suffix@,
            array_keys_in_path: self.array_keys_in_path,
            skip_array_parents: self.skip_array_parents,
        }
    }
}

/// The one-character text of the decimal digit `d`.
fn digit_text(d: usize) -> (r: &'static str)
    requires
        d < 10,
    ensures
        r@ == seq![digit_char(d as nat)],
{
    if d == 0 {
        proof { reveal_strlit("0"); }
        "0"
    } else if d == 1 {
        proof { reveal_strlit("1"); }
        "1"
    } else if d == 2 {
        proof { reveal_strlit("2"); }
        "2"
    } else if d == 3 {
        proof { reveal_strlit("3"); }
        "3"
    } else if d == 4 {
        proof { reveal_strlit("4"); }
        "4"
    } else if d == 5 {
        proof { reveal_strlit("5"); }
        "5"
    } else if d == 6 {
        proof { reveal_strlit("6"); }
        "6"
    } else if d == 7 {
        proof { reveal_strlit("7"); }
        "7"
    } else if d == 8 {
        proof { reveal_strlit("8"); }
        "8"
    } else {
        proof { reveal_strlit("9"); }
        "9"
    }
}

/// Appends the decimal rendering of `n` to `out`.
fn push_decimal(out: &mut String, n: usize)
    ensures
        final(out)@ == old(out)@ + decimal(n as nat),
    decreases n,
{
    if n < 10 {
        out.append(digit_text(n));
    } else {
        push_decimal(out, n / 10);
        out.append(digit_text(n % 10));
    }
}

impl Style {
    pub(crate) fn from_parts(
        object_key_prefix: String,
        object_key_suffix: String,
        object_keys_in_path: bool,
        skip_object_parents: bool,
        array_key_prefix: String,
        array_key_suffix: String,
        array_keys_in_path: bool,
        skip_array_parents: bool,
    ) -> (r: Style)
        ensures
            r@ == (StyleModel {
                object_key_prefix: object_key_prefix@,
                object_key_suffix: object_key_suffix@,
                object_keys_in_path,
                skip_object_parents,
                array_key_prefix: array_key_prefix@,
                array_key_suffix: array_key_suffix@,
                array_keys_in_path,
                skip_array_parents,
            }),
    {
        Style {
            object_key_prefix,
            object_key_suffix,
            object_keys_in_path,
            skip_object_parents,
            array_key_prefix,
            array_key_suffix,
            array_keys_in_path,
            skip_array_parents,
        }
    }

    /// Renders the path of the member `key` of an object found at `base_path`.
    pub fn object_format(&self, base_path: &String, key: &String) -> (r: String)
        ensures
            r@ == self@.object_child(base_path@, key@),
    {
        let mut out = base_path.clone();
        out.append(self.object_key_prefix.as_str());
        if self.object_keys_in_path {
            out.append(key.as_str());
        }
        out.append(self.object_key_suffix.as_str());
        out
    }

    /// Renders the path of the item at `index` of an array found at `base_path`.
    pub fn array_format(&self, base_path: &String, index: usize) -> (r: String)
        ensures
            r@ == self@.array_child(base_path@, index as nat),
    {
        let mut out = base_path.clone();
        out.append(self.array_key_prefix.as_str());
        if self.array_keys_in_path {
            push_decimal(&mut out, index);
        }
        out.append(self.array_key_suffix.as_str());
        out
    }

    /// The reason this style would be refused, if any.
    pub(crate) fn configuration_error(&self) -> (r: Option<ConfigurationError>)
        ensures
            r == self@.configuration_error(),
    {
        if !self.object_keys_in_path && self.object_key_prefix.as_str().is_empty()
            && self.object_key_suffix.as_str().is_empty() {
            Some(ConfigurationError::EmptyObjectStep)
        } else if !self.array_keys_in_path && self.array_key_prefix.as_str().is_empty()
            && self.array_key_suffix.as_str().is_empty() {
            Some(ConfigurationError::EmptyArrayStep)
        } else {
            None
        }
    }

    /// Whether object nodes are left out of the traversal's output.
    pub fn should_skip_object_parents(&self) -> (r: bool)
        ensures
            r == self@.skip_object_parents,
    {
        self.skip_object_parents
    }

    /// Whether array nodes are left out of the traversal's output.
    pub fn should_skip_array_parents(&self) -> (r: bool)
        ensures
            r == self@.skip_array_parents,
    {
        self.skip_array_parents
    }
}

} // verus!
