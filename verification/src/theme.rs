//! Terminal colors: which theme may be named, and how colored text is
//! written.

use vstd::prelude::*;

use crate::text::{chars_of, concat_str, decimal, decimal_string, push_char};

verus! {

/// The 256-color palette index of each part of the interface, where set.
#[derive(Clone, Copy, Debug, Default, PartialEq, Eq)]
pub struct Colors {
    pub ai_prompt: Option<u8>,
    pub input: Option<u8>,
    pub menu_prompt: Option<u8>,
    pub menu_item: Option<u8>,
    pub menu_active: Option<u8>,
    pub history_prompt: Option<u8>,
    pub history_input: Option<u8>,
    pub history_item: Option<u8>,
    pub history_match: Option<u8>,
    pub history_active: Option<u8>,
    pub history_active_match: Option<u8>,
    pub error: Option<u8>,
}

/// The theme in use.
#[derive(Clone, Copy, Debug, Default, PartialEq, Eq)]
pub struct AppTheme {
    pub colors: Colors,
}

/// `text` in palette color `color` (reset after it), or as it is.
pub open spec fn colored_text(text: Seq<char>, color: Option<u8>) -> Seq<char> {
    match color {
        Some(c) => "\x1b[38;5;"@ + decimal(c as nat) + "m"@ + text + "\x1b[0m"@,
        None => text,
    }
}

/// Appends `text` in palette color `color`, or as it is.
pub fn write_color(out: &mut String, text: &str, color: Option<u8>)
    ensures
        final(out)@ == old(out)@ + colored_text(text@, color),
{
    let piece = match color {
        Some(c) => {
            let a = concat_str("\x1b[38;5;", decimal_string(c as u64).as_str());
            let b = concat_str(a.as_str(), "m");
            let d = concat_str(b.as_str(), text);
            concat_str(d.as_str(), "\x1b[0m")
        },
        None => text.to_owned(),
    };
    let joined = concat_str(out.as_str(), piece.as_str());
    *out = joined;
}

/// A menu entry: a marker (`›` when active, a space otherwise), a space
/// and the text.
pub open spec fn item_text(text: Seq<char>, active: bool) -> Seq<char> {
    seq![if active {
        '›'
    } else {
        ' '
    }, ' '] + text
}

impl AppTheme {
    /// Appends the input prompt; a default value is not shown.
    pub fn format_input_prompt(&self, f: &mut String, prompt: &str, default: Option<&str>)
        ensures
            final(f)@ == old(f)@ + colored_text(prompt@, self.colors.ai_prompt),
    {
        write_color(f, prompt, self.colors.ai_prompt)
    }

    /// Appends the prompt and the entered text, each in its color.
    pub fn format_input_prompt_selection(&self, f: &mut String, prompt: &str, selection: &str)
        ensures
            final(f)@ == old(f)@ + colored_text(prompt@, self.colors.ai_prompt) + colored_text(
                selection@,
                self.colors.input,
            ),
    {
        write_color(f, prompt, self.colors.ai_prompt);
        write_color(f, selection, self.colors.input);
    }

    /// Appends a menu prompt.
    pub fn format_select_prompt(&self, f: &mut String, prompt: &str)
        ensures
            final(f)@ == old(f)@ + colored_text(prompt@, self.colors.menu_prompt),
    {
        write_color(f, prompt, self.colors.menu_prompt)
    }

    /// Appends a menu entry, in the active color when it is the active one.
    pub fn format_select_prompt_item(&self, f: &mut String, text: &str, active: bool)
        ensures
            final(f)@ == old(f)@ + colored_text(
                item_text(text@, active),
                if active {
                    self.colors.menu_active
                } else {
                    self.colors.menu_item
                },
            ),
    {
        let mut item = String::new();
        push_char(&mut item, if active {
            '›'
        } else {
            ' '
        });
        push_char(&mut item, ' ');
        let item = concat_str(item.as_str(), text);
        proof {
            assert(item@ =~= item_text(text@, active));
        }
        write_color(
            f,
            item.as_str(),
            if active {
                self.colors.menu_active
            } else {
                self.colors.menu_item
            },
        )
    }
}

/// A theme name: not empty, and only ASCII letters, digits, `-` and `_`,
/// so that it names a file in the themes directory and nothing else.
pub open spec fn is_theme_name(name: Seq<char>) -> bool {
    name.len() > 0 && forall|i: int|
        0 <= i < name.len() ==> {
            let c = #[trigger] name[i];
            ('a' <= c <= 'z') || ('A' <= c <= 'Z') || ('0' <= c <= '9') || c == '-' || c == '_'
        }
}

/// Why a theme cannot be loaded.
#[derive(Clone, Copy, Debug, PartialEq, Eq)]
pub enum ThemeError {
    /// The name holds something other than letters, digits, `-` and `_`.
    InvalidName,
    /// The configuration path has no parent directory.
    NoParent,
}

impl ThemeError {
    /// The message shown for this error.
    pub fn message(&self) -> (r: String)
        ensures
            r@ == match self {
                ThemeError::InvalidName => "theme must use only letters, numbers, hyphens, and underscores"@,
                ThemeError::NoParent => "configuration path has no parent directory"@,
            },
    {
        match self {
            ThemeError::InvalidName => "theme must use only letters, numbers, hyphens, and underscores".to_owned(),
            ThemeError::NoParent => "configuration path has no parent directory".to_owned(),
        }
    }
}

/// Checks a theme name before it becomes part of a path.
pub fn check_theme_name(name: &str) -> (r: Result<(), ThemeError>)
    ensures
        r is Ok == is_theme_name(name@),
        r matches Err(e) ==> e == ThemeError::InvalidName,
{
    let c = chars_of(name);
    if c.len() == 0 {
        return Err(ThemeError::InvalidName);
    }
    let mut i: usize = 0;
    while i < c.len()
        invariant
            c@ == name@,
            i <= c@.len(),
            forall|j: int|
                0 <= j < i ==> {
                    let d = #[trigger] c@[j];
                    ('a' <= d <= 'z') || ('A' <= d <= 'Z') || ('0' <= d <= '9') || d == '-' || d
                        == '_'
                },
        decreases c@.len() - i,
    {
        let d = c[i];
        if !(('a' <= d && d <= 'z') || ('A' <= d && d <= 'Z') || ('0' <= d && d <= '9') || d == '-'
            || d == '_') {
            return Err(ThemeError::InvalidName);
        }
        i = i + 1;
    }
    Ok(())
}

/// The file name of the theme `name`.
pub fn theme_file_name(name: &str) -> (r: String)
    ensures
        r@ == name@ + ".toml"@,
{
    concat_str(name, ".toml")
}

} // verus!
