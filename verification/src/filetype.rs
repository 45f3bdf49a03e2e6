//! The languages that the scanner knows, and the comment markers of each.

use crate::text::str_eq;
use vstd::prelude::*;
use vstd::string::StringSliceAdditionalSpecFns;

verus! {

/// A language together with the markers that open and close its comments.
/// A marker that the language does not have is `None`.
#[derive(Clone, Copy, Debug, PartialEq, Eq)]
pub enum FileType<'b> {
    /// C source files.
    C {
        inline_comment_format: Option<&'b str>,
        multiline_comment_start_format: Option<&'b str>,
        multiline_comment_end_format: Option<&'b str>,
    },
    /// C header files.
    CHeader {
        inline_comment_format: Option<&'b str>,
        multiline_comment_start_format: Option<&'b str>,
        multiline_comment_end_format: Option<&'b str>,
    },
    /// C++ source files.
    Cpp {
        inline_comment_format: Option<&'b str>,
        multiline_comment_start_format: Option<&'b str>,
        multiline_comment_end_format: Option<&'b str>,
    },
    /// C++ header files.
    CppHeader {
        inline_comment_format: Option<&'b str>,
        multiline_comment_start_format: Option<&'b str>,
        multiline_comment_end_format: Option<&'b str>,
    },
    /// C# source files.
    CSharp {
        inline_comment_format: Option<&'b str>,
        multiline_comment_start_format: Option<&'b str>,
        multiline_comment_end_format: Option<&'b str>,
    },
    /// Java source files.
    Java {
        inline_comment_format: Option<&'b str>,
        multiline_comment_start_format: Option<&'b str>,
        multiline_comment_end_format: Option<&'b str>,
    },
    /// Python scripts.
    Python {
        inline_comment_format: Option<&'b str>,
        multiline_comment_start_format: Option<&'b str>,
        multiline_comment_end_format: Option<&'b str>,
    },
    /// Go source files.
    Go {
        inline_comment_format: Option<&'b str>,
        multiline_comment_start_format: Option<&'b str>,
        multiline_comment_end_format: Option<&'b str>,
    },
    /// Rust source files.
    Rust {
        inline_comment_format: Option<&'b str>,
        multiline_comment_start_format: Option<&'b str>,
        multiline_comment_end_format: Option<&'b str>,
    },
    /// Zig source files.
    Zig {
        inline_comment_format: Option<&'b str>,
        multiline_comment_start_format: Option<&'b str>,
        multiline_comment_end_format: Option<&'b str>,
    },
    /// JavaScript source files.
    Javascript {
        inline_comment_format: Option<&'b str>,
        multiline_comment_start_format: Option<&'b str>,
        multiline_comment_end_format: Option<&'b str>,
    },
    /// TypeScript source files.
    Typescript {
        inline_comment_format: Option<&'b str>,
        multiline_comment_start_format: Option<&'b str>,
        multiline_comment_end_format: Option<&'b str>,
    },
    /// Makefiles.
    Makefile {
        inline_comment_format: Option<&'b str>,
        multiline_comment_start_format: Option<&'b str>,
        multiline_comment_end_format: Option<&'b str>,
    },
    /// JSON documents.
    Json {
        inline_comment_format: Option<&'b str>,
        multiline_comment_start_format: Option<&'b str>,
        multiline_comment_end_format: Option<&'b str>,
    },
}

/// The comment markers of a language, as the byte strings that are looked
/// for in a line.
pub struct Grammar {
    /// Opens a comment that runs to the end of the line.
    pub inline: Option<Seq<u8>>,
    /// Opens a comment that may run over several lines.
    pub open: Option<Seq<u8>>,
    /// Closes a comment that may run over several lines.
    pub close: Option<Seq<u8>>,
}

/// The bytes of an optional marker.
pub open spec fn marker_bytes(marker: Option<&str>) -> Option<Seq<u8>> {
    match marker {
        Some(text) => Some(text.spec_bytes()),
        None => None,
    }
}

impl<'b> FileType<'b> {
    /// The three markers as they are stored: inline, multiline start,
    /// multiline end.
    pub open spec fn formats(&self) -> (Option<&'b str>, Option<&'b str>, Option<&'b str>) {
        match *self {
            FileType::C {
                inline_comment_format,
                multiline_comment_start_format,
                multiline_comment_end_format,
            } => (
                inline_comment_format,
                multiline_comment_start_format,
                multiline_comment_end_format,
            ),
            FileType::CHeader {
                inline_comment_format,
                multiline_comment_start_format,
                multiline_comment_end_format,
            } => (
                inline_comment_format,
                multiline_comment_start_format,
                multiline_comment_end_format,
            ),
            FileType::Cpp {
                inline_comment_format,
                multiline_comment_start_format,
                multiline_comment_end_format,
            } => (
                inline_comment_format,
                multiline_comment_start_format,
                multiline_comment_end_format,
            ),
            FileType::CppHeader {
                inline_comment_format,
                multiline_comment_start_format,
                multiline_comment_end_format,
            } => (
                inline_comment_format,
                multiline_comment_start_format,
                multiline_comment_end_format,
            ),
            FileType::CSharp {
                inline_comment_format,
                multiline_comment_start_format,
                multiline_comment_end_format,
            } => (
                inline_comment_format,
                multiline_comment_start_format,
                multiline_comment_end_format,
            ),
            FileType::Java {
                inline_comment_format,
                multiline_comment_start_format,
                multiline_comment_end_format,
            } => (
                inline_comment_format,
                multiline_comment_start_format,
                multiline_comment_end_format,
            ),
            FileType::Python {
                inline_comment_format,
                multiline_comment_start_format,
                multiline_comment_end_format,
            } => (
                inline_comment_format,
                multiline_comment_start_format,
                multiline_comment_end_format,
            ),
            FileType::Go {
                inline_comment_format,
                multiline_comment_start_format,
                multiline_comment_end_format,
            } => (
                inline_comment_format,
                multiline_comment_start_format,
                multiline_comment_end_format,
            ),
            FileType::Rust {
                inline_comment_format,
                multiline_comment_start_format,
                multiline_comment_end_format,
            } => (
                inline_comment_format,
                multiline_comment_start_format,
                multiline_comment_end_format,
            ),
            FileType::Zig {
                inline_comment_format,
                multiline_comment_start_format,
                multiline_comment_end_format,
            } => (
                inline_comment_format,
                multiline_comment_start_format,
                multiline_comment_end_format,
            ),
            FileType::Javascript {
                inline_comment_format,
                multiline_comment_start_format,
                multiline_comment_end_format,
            } => (
                inline_comment_format,
                multiline_comment_start_format,
                multiline_comment_end_format,
            ),
            FileType::Typescript {
                inline_comment_format,
                multiline_comment_start_format,
                multiline_comment_end_format,
            } => (
                inline_comment_format,
                multiline_comment_start_format,
                multiline_comment_end_format,
            ),
            FileType::Makefile {
                inline_comment_format,
                multiline_comment_start_format,
                multiline_comment_end_format,
            } => (
                inline_comment_format,
                multiline_comment_start_format,
                multiline_comment_end_format,
            ),
            FileType::Json {
                inline_comment_format,
                multiline_comment_start_format,
                multiline_comment_end_format,
            } => (
                inline_comment_format,
                multiline_comment_start_format,
                multiline_comment_end_format,
            ),
        }
    }

    /// The markers of this language as byte strings.
    pub open spec fn grammar(&self) -> Grammar {
        Grammar {
            inline: marker_bytes(self.formats().0),
            open: marker_bytes(self.formats().1),
            close: marker_bytes(self.formats().2),
        }
    }

    /// The name under which files of this language are counted.
    pub open spec fn name(&self) -> Seq<char> {
        match *self {
            FileType::C { .. } => "C"@,
            FileType::CHeader { .. } => "C Header"@,
            FileType::Cpp { .. } => "C++"@,
            FileType::CppHeader { .. } => "C++ Header"@,
            FileType::CSharp { .. } => "C#"@,
            FileType::Java { .. } => "Java"@,
            FileType::Python { .. } => "Python"@,
            FileType::Go { .. } => "Go"@,
            FileType::Rust { .. } => "Rust"@,
            FileType::Zig { .. } => "Zig"@,
            FileType::Javascript { .. } => "JavaScript"@,
            FileType::Typescript { .. } => "TypeScript"@,
            FileType::Makefile { .. } => "Makefile"@,
            FileType::Json { .. } => "JSON"@,
        }
    }

    /// The three markers of this language: inline, multiline start,
    /// multiline end.
    pub fn destructure(&self) -> (markers: (Option<&'b str>, Option<&'b str>, Option<&'b str>))
        ensures
            markers == self.formats(),
    {
        match *self {
            FileType::C {
                inline_comment_format,
                multiline_comment_start_format,
                multiline_comment_end_format,
            } => (
                inline_comment_format,
                multiline_comment_start_format,
                multiline_comment_end_format,
            ),
            FileType::CHeader {
                inline_comment_format,
                multiline_comment_start_format,
                multiline_comment_end_format,
            } => (
                inline_comment_format,
                multiline_comment_start_format,
                multiline_comment_end_format,
            ),
            FileType::Cpp {
                inline_comment_format,
                multiline_comment_start_format,
                multiline_comment_end_format,
            } => (
                inline_comment_format,
                multiline_comment_start_format,
                multiline_comment_end_format,
            ),
            FileType::CppHeader {
                inline_comment_format,
                multiline_comment_start_format,
                multiline_comment_end_format,
            } => (
                inline_comment_format,
                multiline_comment_start_format,
                multiline_comment_end_format,
            ),
            FileType::CSharp {
                inline_comment_format,
                multiline_comment_start_format,
                multiline_comment_end_format,
            } => (
                inline_comment_format,
                multiline_comment_start_format,
                multiline_comment_end_format,
            ),
            FileType::Java {
                inline_comment_format,
                multiline_comment_start_format,
                multiline_comment_end_format,
            } => (
                inline_comment_format,
                multiline_comment_start_format,
                multiline_comment_end_format,
            ),
            FileType::Python {
                inline_comment_format,
                multiline_comment_start_format,
                multiline_comment_end_format,
            } => (
                inline_comment_format,
                multiline_comment_start_format,
                multiline_comment_end_format,
            ),
            FileType::Go {
                inline_comment_format,
                multiline_comment_start_format,
                multiline_comment_end_format,
            } => (
                inline_comment_format,
                multiline_comment_start_format,
                multiline_comment_end_format,
            ),
            FileType::Rust {
                inline_comment_format,
                multiline_comment_start_format,
                multiline_comment_end_format,
            } => (
                inline_comment_format,
                multiline_comment_start_format,
                multiline_comment_end_format,
            ),
            FileType::Zig {
                inline_comment_format,
                multiline_comment_start_format,
                multiline_comment_end_format,
            } => (
                inline_comment_format,
                multiline_comment_start_format,
                multiline_comment_end_format,
            ),
            FileType::Javascript {
                inline_comment_format,
                multiline_comment_start_format,
                multiline_comment_end_format,
            } => (
                inline_comment_format,
                multiline_comment_start_format,
                multiline_comment_end_format,
            ),
            FileType::Typescript {
                inline_comment_format,
                multiline_comment_start_format,
                multiline_comment_end_format,
            } => (
                inline_comment_format,
                multiline_comment_start_format,
                multiline_comment_end_format,
            ),
            FileType::Makefile {
                inline_comment_format,
                multiline_comment_start_format,
                multiline_comment_end_format,
            } => (
                inline_comment_format,
                multiline_comment_start_format,
                multiline_comment_end_format,
            ),
            FileType::Json {
                inline_comment_format,
                multiline_comment_start_format,
                multiline_comment_end_format,
            } => (
                inline_comment_format,
                multiline_comment_start_format,
                multiline_comment_end_format,
            ),
        }
    }

    /// The name under which files of this language are counted.
    pub fn stringify(&self) -> (name: &'static str)
        ensures
            name@ == self.name(),
    {
        match *self {
            FileType::C { .. } => "C",
            FileType::CHeader { .. } => "C Header",
            FileType::Cpp { .. } => "C++",
            FileType::CppHeader { .. } => "C++ Header",
            FileType::CSharp { .. } => "C#",
            FileType::Java { .. } => "Java",
            FileType::Python { .. } => "Python",
            FileType::Go { .. } => "Go",
            FileType::Rust { .. } => "Rust",
            FileType::Zig { .. } => "Zig",
            FileType::Javascript { .. } => "JavaScript",
            FileType::Typescript { .. } => "TypeScript",
            FileType::Makefile { .. } => "Makefile",
            FileType::Json { .. } => "JSON",
        }
    }
}

/// What a path is classified by.
#[derive(Clone, Copy, Debug, PartialEq, Eq)]
pub enum FileKey<'a> {
    /// The extension of a path that has one.
    Extension(&'a str),
    /// The file name of a path without extension.
    BareName(&'a str),
    /// A path with neither, or one whose extension or name is not text.
    Unknown,
}

/// The language of files with the extension `extension`. Extensions are
/// told apart by case.
pub open spec fn language_of_extension(extension: Seq<char>) -> Option<FileType<'static>> {
    if extension == "c"@ {
        Some(
            FileType::C {
                inline_comment_format: Some("//"),
                multiline_comment_start_format: Some("/*"),
                multiline_comment_end_format: Some("*/"),
            },
        )
    } else if extension == "h"@ {
        Some(
            FileType::CHeader {
                inline_comment_format: Some("//"),
                multiline_comment_start_format: Some("/*"),
                multiline_comment_end_format: Some("*/"),
            },
        )
    } else if extension == "cpp"@ {
        Some(
            FileType::Cpp {
                inline_comment_format: Some("//"),
                multiline_comment_start_format: Some("/*"),
                multiline_comment_end_format: Some("*/"),
            },
        )
    } else if extension == "cxx"@ {
        Some(
            FileType::Cpp {
                inline_comment_format: Some("//"),
                multiline_comment_start_format: Some("/*"),
                multiline_comment_end_format: Some("*/"),
            },
        )
    } else if extension == "cc"@ {
        Some(
            FileType::Cpp {
                inline_comment_format: Some("//"),
                multiline_comment_start_format: Some("/*"),
                multiline_comment_end_format: Some("*/"),
            },
        )
    } else if extension == "hpp"@ {
        Some(
            FileType::CppHeader {
                inline_comment_format: Some("//"),
                multiline_comment_start_format: Some("/*"),
                multiline_comment_end_format: Some("*/"),
            },
        )
    } else if extension == "cs"@ {
        Some(
            FileType::CSharp {
                inline_comment_format: Some("//"),
                multiline_comment_start_format: Some("/*"),
                multiline_comment_end_format: Some("*/"),
            },
        )
    } else if extension == "java"@ {
        Some(
            FileType::Java {
                inline_comment_format: Some("//"),
                multiline_comment_start_format: Some("/*"),
                multiline_comment_end_format: Some("*/"),
            },
        )
    } else if extension == "py"@ {
        Some(
            FileType::Python {
                inline_comment_format: Some("#"),
                multiline_comment_start_format: None,
                multiline_comment_end_format: None,
            },
        )
    } else if extension == "go"@ {
        Some(
            FileType::Go {
                inline_comment_format: Some("//"),
                multiline_comment_start_format: Some("/*"),
                multiline_comment_end_format: Some("*/"),
            },
        )
    } else if extension == "zig"@ {
        Some(
            FileType::Zig {
                inline_comment_format: Some("//"),
                multiline_comment_start_format: None,
                multiline_comment_end_format: None,
            },
        )
    } else if extension == "rs"@ {
        Some(
            FileType::Rust {
                inline_comment_format: Some("//"),
                multiline_comment_start_format: Some("/*"),
                multiline_comment_end_format: Some("*/"),
            },
        )
    } else if extension == "js"@ {
        Some(
            FileType::Javascript {
                inline_comment_format: Some("//"),
                multiline_comment_start_format: Some("/*"),
                multiline_comment_end_format: Some("*/"),
            },
        )
    } else if extension == "ts"@ {
        Some(
            FileType::Typescript {
                inline_comment_format: Some("//"),
                multiline_comment_start_format: Some("/*"),
                multiline_comment_end_format: Some("*/"),
            },
        )
    } else {
        None
    }
}

/// The language of files without extension that are called `name`.
pub open spec fn language_of_name(name: Seq<char>) -> Option<FileType<'static>> {
    if name == "Makefile"@ {
        Some(
            FileType::Makefile {
                inline_comment_format: Some("#"),
                multiline_comment_start_format: None,
                multiline_comment_end_format: None,
            },
        )
    } else {
        None
    }
}

/// The language that `key` stands for, if it is a known one.
pub open spec fn language_of(key: FileKey) -> Option<FileType<'static>> {
    match key {
        FileKey::Extension(extension) => language_of_extension(extension@),
        FileKey::BareName(name) => language_of_name(name@),
        FileKey::Unknown => None,
    }
}

/// The language of a path whose extension and file name have the texts
/// `extension` and `file_name`. Of each, the outer value is `None` where the
/// path has none, the inner where it is not text. A path with an extension
/// is known by it alone; a path without one is known by its name.
pub open spec fn language_of_parts(
    extension: Option<Option<Seq<char>>>,
    file_name: Option<Option<Seq<char>>>,
) -> Option<FileType<'static>> {
    match extension {
        Some(Some(text)) => language_of_extension(text),
        Some(None) => None,
        None => match file_name {
            Some(Some(text)) => language_of_name(text),
            _ => None,
        },
    }
}

/// The key of a path with the extension `extension` and the file name
/// `file_name`. Of each, the outer value is `None` where the path has none,
/// the inner where it is not text.
pub open spec fn key_of<'a>(
    extension: Option<Option<&'a str>>,
    file_name: Option<Option<&'a str>>,
) -> FileKey<'a> {
    match extension {
        Some(Some(text)) => FileKey::Extension(text),
        Some(None) => FileKey::Unknown,
        None => match file_name {
            Some(Some(text)) => FileKey::BareName(text),
            _ => FileKey::Unknown,
        },
    }
}

impl<'a> FileKey<'a> {
    /// The key of a path with the extension `extension` and the file name
    /// `file_name`: the extension where there is one, else the file name.
    pub fn of(extension: Option<Option<&'a str>>, file_name: Option<Option<&'a str>>) -> (key:
        Self)
        ensures
            key == key_of(extension, file_name),
    {
        match extension {
            Some(Some(text)) => FileKey::Extension(text),
            Some(None) => FileKey::Unknown,
            None => match file_name {
                Some(Some(text)) => FileKey::BareName(text),
                _ => FileKey::Unknown,
            },
        }
    }

    /// Looks the key up in the table of languages. A key that the table
    /// does not hold gives `None`.
    pub fn classify(&self) -> (filetype: Option<FileType<'static>>)
        ensures
            filetype == language_of(*self),
    {
        match *self {
            FileKey::Extension(extension) => {
                if str_eq(extension, "c") {
                    Some(
                        FileType::C {
                            inline_comment_format: Some("//"),
                            multiline_comment_start_format: Some("/*"),
                            multiline_comment_end_format: Some("*/"),
                        },
                    )
                } else if str_eq(extension, "h") {
                    Some(
                        FileType::CHeader {
                            inline_comment_format: Some("//"),
                            multiline_comment_start_format: Some("/*"),
                            multiline_comment_end_format: Some("*/"),
                        },
                    )
                } else if str_eq(extension, "cpp") {
                    Some(
                        FileType::Cpp {
                            inline_comment_format: Some("//"),
                            multiline_comment_start_format: Some("/*"),
                            multiline_comment_end_format: Some("*/"),
                        },
                    )
                } else if str_eq(extension, "cxx") {
                    Some(
                        FileType::Cpp {
                            inline_comment_format: Some("//"),
                            multiline_comment_start_format: Some("/*"),
                            multiline_comment_end_format: Some("*/"),
                        },
                    )
                } else if str_eq(extension, "cc") {
                    Some(
                        FileType::Cpp {
                            inline_comment_format: Some("//"),
                            multiline_comment_start_format: Some("/*"),
                            multiline_comment_end_format: Some("*/"),
                        },
                    )
                } else if str_eq(extension, "hpp") {
                    Some(
                        FileType::CppHeader {
                            inline_comment_format: Some("//"),
                            multiline_comment_start_format: Some("/*"),
                            multiline_comment_end_format: Some("*/"),
                        },
                    )
                } else if str_eq(extension, "cs") {
                    Some(
                        FileType::CSharp {
                            inline_comment_format: Some("//"),
                            multiline_comment_start_format: Some("/*"),
                            multiline_comment_end_format: Some("*/"),
                        },
                    )
                } else if str_eq(extension, "java") {
                    Some(
                        FileType::Java {
                            inline_comment_format: Some("//"),
                            multiline_comment_start_format: Some("/*"),
                            multiline_comment_end_format: Some("*/"),
                        },
                    )
                } else if str_eq(extension, "py") {
                    Some(
                        FileType::Python {
                            inline_comment_format: Some("#"),
                            multiline_comment_start_format: None,
                            multiline_comment_end_format: None,
                        },
                    )
                } else if str_eq(extension, "go") {
                    Some(
                        FileType::Go {
                            inline_comment_format: Some("//"),
                            multiline_comment_start_format: Some("/*"),
                            multiline_comment_end_format: Some("*/"),
                        },
                    )
                } else if str_eq(extension, "zig") {
                    Some(
                        FileType::Zig {
                            inline_comment_format: Some("//"),
                            multiline_comment_start_format: None,
                            multiline_comment_end_format: None,
                        },
                    )
                } else if str_eq(extension, "rs") {
                    Some(
                        FileType::Rust {
                            inline_comment_format: Some("//"),
                            multiline_comment_start_format: Some("/*"),
                            multiline_comment_end_format: Some("*/"),
                        },
                    )
                } else if str_eq(extension, "js") {
                    Some(
                        FileType::Javascript {
                            inline_comment_format: Some("//"),
                            multiline_comment_start_format: Some("/*"),
                            multiline_comment_end_format: Some("*/"),
                        },
                    )
                } else if str_eq(extension, "ts") {
                    Some(
                        FileType::Typescript {
                            inline_comment_format: Some("//"),
                            multiline_comment_start_format: Some("/*"),
                            multiline_comment_end_format: Some("*/"),
                        },
                    )
                } else {
                    None
                }
            },
            FileKey::BareName(name) => {
                if str_eq(name, "Makefile") {
                    Some(
                        FileType::Makefile {
                            inline_comment_format: Some("#"),
                            multiline_comment_start_format: None,
                            multiline_comment_end_format: None,
                        },
                    )
                } else {
                    None
                }
            },
            FileKey::Unknown => None,
        }
    }
}

} // verus!
