//! The choices of the command-line tool, as functions of what the user asked for.

use vstd::prelude::*;
use crate::text::same_text;

verus! {

/// What the extension of an image file says about the formats it can be saved in.
#[derive(Debug, Clone, Copy, PartialEq, Eq, Structural)]
pub enum ImageFileCheck {
    /// The extension names a format that can be written: `png`, `jpeg` or `jpg`.
    Supported,
    /// The file name has no extension.
    NoExtension,
    /// The extension names no format that can be written.
    Unrecognized,
}

/// Where the password comes from.
#[derive(Debug, Clone, Copy, PartialEq, Eq, Structural)]
pub enum PasswordSource {
    /// A prompt that does not show what is typed.
    Prompt,
    /// A prompt that shows what is typed.
    PromptEcho,
    /// The command line.
    Argument,
}

/// The form in which the symbol goes out.
#[derive(Debug, Clone, Copy, PartialEq, Eq, Structural)]
pub enum Output {
    /// An SVG document in a file.
    SvgFile,
    /// A raster image in a file.
    ImageFile,
    /// An SVG document on standard output.
    Svg,
    /// A block of text on the terminal.
    Console,
    /// No form was asked for.
    Unselected,
}

/// Whether an extension names a format that an image can be saved in.
pub open spec fn is_supported_extension(ext: Seq<char>) -> bool {
    ext == "png"@ || ext == "jpeg"@ || ext == "jpg"@
}

/// Judges the extension of an image file.
pub fn check_image_extension(extension: Option<&str>) -> (check: ImageFileCheck)
    ensures
        check == (match extension {
            None => ImageFileCheck::NoExtension,
            Some(ext) => if is_supported_extension(ext@) {
                ImageFileCheck::Supported
            } else {
                ImageFileCheck::Unrecognized
            },
        }),
{
    match extension {
        None => ImageFileCheck::NoExtension,
        Some(ext) => {
            if same_text(ext, "png") || same_text(ext, "jpeg") || same_text(ext, "jpg") {
                ImageFileCheck::Supported
            } else {
                ImageFileCheck::Unrecognized
            }
        },
    }
}

/// Picks the source of the password: a hidden prompt before an echoing one,
/// and either before the command line.
pub fn password_source(ask: bool, ask_echo: bool) -> (source: PasswordSource)
    ensures
        source == (if ask {
            PasswordSource::Prompt
        } else if ask_echo {
            PasswordSource::PromptEcho
        } else {
            PasswordSource::Argument
        }),
{
    if ask {
        PasswordSource::Prompt
    } else if ask_echo {
        PasswordSource::PromptEcho
    } else {
        PasswordSource::Argument
    }
}

/// Picks the form of the output: an SVG file before an image file, an image
/// file before SVG on standard output, and that before the terminal.
pub fn select_output(svg_file: bool, image_file: bool, svg: bool, console: bool) -> (output: Output)
    ensures
        output == (if svg_file {
            Output::SvgFile
        } else if image_file {
            Output::ImageFile
        } else if svg {
            Output::Svg
        } else if console {
            Output::Console
        } else {
            Output::Unselected
        }),
{
    if svg_file {
        Output::SvgFile
    } else if image_file {
        Output::ImageFile
    } else if svg {
        Output::Svg
    } else if console {
        Output::Console
    } else {
        Output::Unselected
    }
}

} // verus!
