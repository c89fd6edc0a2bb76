//! The configuration-file entries, as the engines consume them.

use vstd::prelude::*;
use vstd::string::StringExecFns;

use crate::naming_conventions::NamingConvention;

verus! {

/// The struct that defines the configuration file entries. The file itself
/// is read outside the library; the engines only see this merged record.
#[derive(Clone, Debug, PartialEq, Eq)]
pub struct Cfg {
    /// The naming convention to use when the command line names none.
    pub naming_convention: NamingConvention,
    /// Recursively format filenames within directories.
    pub recursive: bool,
    /// Keep dots as ordinary characters instead of separators.
    pub keep_dots: bool,
    /// Keep characters that are neither alphanumeric nor separators.
    pub keep_special_chars: bool,
    /// Keep non-ASCII characters instead of transliterating them.
    pub keep_unicode: bool,
    /// The editor with which to open the exclude file.
    pub editor: String,
}

impl Default for Cfg {
    /// The built-in configuration: snake_case, no recursion, `vi`.
    fn default() -> (c: Cfg)
        ensures
            c.naming_convention == NamingConvention::SnakeCase,
            !c.recursive,
            !c.keep_dots,
            !c.keep_special_chars,
            !c.keep_unicode,
            c.editor@ == "vi"@,
    {
        Cfg {
            naming_convention: NamingConvention::SnakeCase,
            recursive: false,
            keep_dots: false,
            keep_special_chars: false,
            keep_unicode: false,
            editor: String::from_str("vi"),
        }
    }
}

} // verus!
